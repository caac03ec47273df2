use vstd::prelude::*;

use crate::music::{Duration, Interval, Pitch};

verus! {

/// A value of the score language: what an expression evaluates to.
#[derive(Debug, PartialEq, Eq)]
pub enum Value {
    Int(i32),
    Bool(bool),
    Pitch(Pitch),
    Interval(Interval),
    Duration(Duration),
    String(String),
    List(Vec<Value>),
}

/// What a value is, as mathematics sees it: a string as its characters, a list as the sequence
/// of what its items are.
pub enum ValueModel {
    Int(i32),
    Bool(bool),
    Pitch(Pitch),
    Interval(Interval),
    Duration(Duration),
    Text(Seq<char>),
    List(Seq<ValueModel>),
}

/// What a value is.
pub open spec fn model(v: Value) -> ValueModel
    decreases v, 1int,
{
    match v {
        Value::Int(i) => ValueModel::Int(i),
        Value::Bool(b) => ValueModel::Bool(b),
        Value::Pitch(p) => ValueModel::Pitch(p),
        Value::Interval(i) => ValueModel::Interval(i),
        Value::Duration(d) => ValueModel::Duration(d),
        Value::String(s) => ValueModel::Text(s@),
        Value::List(xs) => ValueModel::List(models(xs@)),
    }
}

/// What the values of a sequence are, in order.
pub open spec fn models(xs: Seq<Value>) -> Seq<ValueModel>
    decreases xs, 0int,
{
    if xs.len() == 0 {
        Seq::empty()
    } else {
        models(xs.drop_last()).push(model(xs.last()))
    }
}

/// Whether two values are the same: equal scalars, or lists of the same values.
pub open spec fn same_value(a: Value, b: Value) -> bool
    decreases a,
{
    match a {
        Value::List(xs) => match b {
            Value::List(ys) => xs@.len() == ys@.len() && forall|i: int|
                0 <= i < xs@.len() ==> #[trigger] same_value_at(xs@, ys@, i),
            _ => false,
        },
        _ => a == b,
    }
}

/// Whether two lists have the same value at a position.
pub open spec fn same_value_at(xs: Seq<Value>, ys: Seq<Value>, i: int) -> bool
    decreases xs, 0int,
{
    if 0 <= i < xs.len() {
        same_value(xs[i], ys[i])
    } else {
        true
    }
}

/// `models` keeps the length and takes each value's model in place.
pub proof fn lemma_models_index(xs: Seq<Value>)
    ensures
        models(xs).len() == xs.len(),
        forall|i: int| 0 <= i < xs.len() ==> #[trigger] models(xs)[i] == model(xs[i]),
    decreases xs.len(),
{
    if xs.len() > 0 {
        lemma_models_index(xs.drop_last());
        assert forall|i: int| 0 <= i < xs.len() implies #[trigger] models(xs)[i] == model(xs[i]) by {
            if i < xs.len() - 1 {
                assert(xs.drop_last()[i] == xs[i]);
            }
        }
    }
}

/// The models of a sequence with one more value.
pub proof fn lemma_models_push(xs: Seq<Value>, v: Value)
    ensures
        models(xs.push(v)) == models(xs).push(model(v)),
{
    assert(xs.push(v).drop_last() =~= xs);
}

proof fn lemma_models_eq(xs: Seq<Value>, ys: Seq<Value>)
    requires
        xs.len() == ys.len(),
        forall|i: int| 0 <= i < xs.len() ==> model(#[trigger] xs[i]) == model(ys[i]),
    ensures
        models(xs) == models(ys),
    decreases xs.len(),
{
    if xs.len() > 0 {
        let n = xs.len() - 1;
        assert forall|i: int| 0 <= i < n implies model(#[trigger] xs.drop_last()[i]) == model(
            ys.drop_last()[i],
        ) by {
            assert(xs.drop_last()[i] == xs[i]);
            assert(ys.drop_last()[i] == ys[i]);
        }
        lemma_models_eq(xs.drop_last(), ys.drop_last());
        assert(model(xs[n]) == model(ys[n]));
    }
}

/// A copy of a value: the same value, and for a list a list of copies.
pub fn copy_value(v: &Value) -> (r: Value)
    ensures
        !(v is List) ==> r == *v,
        v is List ==> r is List && r->List_0@.len() == v->List_0@.len(),
        same_value(*v, r),
        model(r) == model(*v),
    decreases v,
{
    proof {
        if !(v is List) {
            assert(same_value(*v, *v));
        }
    }
    match v {
        Value::Int(i) => Value::Int(*i),
        Value::Bool(b) => Value::Bool(*b),
        Value::Pitch(p) => Value::Pitch(*p),
        Value::Interval(i) => Value::Interval(*i),
        Value::Duration(d) => Value::Duration(*d),
        Value::String(s) => {
            let c = s.clone();
            assert(c == *s);
            Value::String(c)
        },
        Value::List(values) => {
            let mut out: Vec<Value> = Vec::new();
            let mut i: usize = 0;
            while i < values.len()
                invariant
                    *v == Value::List(*values),
                    i <= values@.len(),
                    out@.len() == i,
                    forall|k: int| 0 <= k < i ==> same_value(values@[k], #[trigger] out@[k]),
                    forall|k: int| 0 <= k < i ==> model(values@[k]) == model(#[trigger] out@[k]),
                decreases values@.len() - i,
            {
                proof {
                    assert((*v)->List_0 == *values);
                    assert(decreases_to!(*v => (*v)->List_0));
                    assert(decreases_to!(*values => values@));
                    assert(decreases_to!(values@ => values@[i as int]));
                }
                out.push(copy_value(&values[i]));
                i = i + 1;
            }
            let r = Value::List(out);
            assert forall|k: int| 0 <= k < values@.len() implies #[trigger] same_value_at(values@, out@, k) by {
                assert(same_value(values@[k], out@[k]));
            }
            assert(same_value(*v, r));
            proof {
                lemma_models_eq(values@, out@);
            }
            r
        },
    }
}

} // verus!
