use vstd::prelude::*;

use crate::diagnostic::Span;
use crate::ir::{NoteEventIr, TrackIr};
use crate::music::{Chord, Duration, Note, Pitch, DEFAULT_TICKS_PER_QUARTER};
use crate::text::{owned, str_eq};

verus! {

/// Ticks of a duration at the default resolution (a whole note is four quarters).
pub open spec fn whole_ticks_spec(d: Duration) -> nat {
    if d.denominator_spec() == 0 {
        0
    } else {
        (DEFAULT_TICKS_PER_QUARTER as nat * 4 * d.numerator_spec()) / d.denominator_spec()
    }
}

/// One tuplet scaling step: `count` notes in the space of `space_ticks`.
pub open spec fn scale_step(t: nat, count: u32, space_ticks: u32) -> nat {
    let product: nat = t * (space_ticks as nat);
    let capped: nat = if product > u64::MAX { u64::MAX as nat } else { product };
    capped / (count as nat * 240)
}

/// The ticks after every active scaling, innermost last.
pub open spec fn scaled(t: nat, scales: Seq<(u32, u32)>) -> nat
    decreases scales.len(),
{
    if scales.len() == 0 {
        t
    } else {
        scale_step(scaled(t, scales.drop_last()), scales.last().0, scales.last().1)
    }
}

/// A tick count kept between one and `u32::MAX`.
pub open spec fn clamp_ticks(t: nat) -> u32 {
    if t < 1 {
        1
    } else if t > u32::MAX {
        u32::MAX
    } else {
        t as u32
    }
}

/// `a + b`, or `u32::MAX` where the sum does not fit.
pub open spec fn saturating(a: u32, b: u32) -> u32 {
    if a + b > u32::MAX {
        u32::MAX
    } else {
        (a + b) as u32
    }
}

/// Events in the order of their start ticks.
pub open spec fn sorted_by_start(events: Seq<NoteEventIr>) -> bool {
    forall|i: int, j: int|
        0 <= i <= j < events.len() ==> #[trigger] events[i].start_tick <= #[trigger] events[j].start_tick
}

/// Whether a rule was suppressed for events starting at a tick.
pub open spec fn overridden_at(marks: Seq<(String, u32)>, rule: Seq<char>, tick: u32) -> bool {
    exists|i: int| 0 <= i < marks.len() && (#[trigger] marks[i]).0@ == rule && marks[i].1 == tick
}

/// The events and state of one track while statements are compiled into it.
pub struct TrackBuilder {
    name: String,
    program: Option<u8>,
    channel: Option<u8>,
    volume: Option<u8>,
    pan: Option<u8>,
    cursor_tick: u32,
    velocity: u8,
    articulation: Option<String>,
    events: Vec<NoteEventIr>,
    overridden: Vec<(String, u32)>,
    time_scales: Vec<(u32, u32)>,
}

fn copy_text_option(o: &Option<String>) -> (r: Option<String>)
    ensures
        r == *o,
{
    match o {
        Some(s) => Some(s.clone()),
        None => None,
    }
}

/// Ticks of a duration at the default resolution.
fn whole_ticks(d: Duration) -> (r: u64)
    ensures
        r == whole_ticks_spec(d),
{
    let n = d.numerator();
    let den = d.denominator();
    if den == 0 {
        return 0;
    }
    assert(1920 * (n as nat) <= 1920 * (u32::MAX as nat)) by (nonlinear_arith)
        requires
            n <= u32::MAX,
    ;
    let wide: u64 = 1920 * n as u64;
    let q: u64 = wide / den as u64;
    q
}

impl TrackBuilder {
    pub closed spec fn name_spec(self) -> Seq<char> {
        self.name@
    }

    pub closed spec fn program_spec(self) -> Option<u8> {
        self.program
    }

    pub closed spec fn channel_spec(self) -> Option<u8> {
        self.channel
    }

    pub closed spec fn volume_spec(self) -> Option<u8> {
        self.volume
    }

    pub closed spec fn pan_spec(self) -> Option<u8> {
        self.pan
    }

    pub closed spec fn cursor_spec(self) -> u32 {
        self.cursor_tick
    }

    pub closed spec fn velocity_spec(self) -> u8 {
        self.velocity
    }

    pub closed spec fn articulation_spec(self) -> Option<String> {
        self.articulation
    }

    pub closed spec fn events_spec(self) -> Seq<NoteEventIr> {
        self.events@
    }

    pub closed spec fn marks_spec(self) -> Seq<(String, u32)> {
        self.overridden@
    }

    pub closed spec fn scales_spec(self) -> Seq<(u32, u32)> {
        self.time_scales@
    }

    /// Velocity is a MIDI value, every scale has a positive count, and events
    /// come in start order, none after the cursor.
    pub closed spec fn wf(self) -> bool {
        &&& self.velocity <= 127
        &&& forall|i: int| 0 <= i < self.time_scales@.len() ==> (#[trigger] self.time_scales@[i]).0 > 0
        &&& sorted_by_start(self.events@)
        &&& forall|i: int| 0 <= i < self.events@.len() ==> (#[trigger] self.events@[i]).start_tick <= self.cursor_tick
        &&& forall|i: int| 0 <= i < self.events@.len() ==> (#[trigger] self.events@[i]).velocity <= 127
    }

    /// The tick length that a duration takes under the active scalings.
    pub open spec fn ticks_for(self, d: Duration) -> u32 {
        clamp_ticks(scaled(whole_ticks_spec(d), self.scales_spec()))
    }

    /// The event that a pitch would become at the cursor.
    pub open spec fn event_at(self, pitch: Pitch, start: u32, ticks: u32, span: Option<Span>) -> NoteEventIr {
        NoteEventIr {
            pitch,
            start_tick: start,
            duration_ticks: ticks,
            velocity: self.velocity_spec(),
            articulation: self.articulation_spec(),
            source_span: span,
        }
    }

    /// A new, empty track at tick zero, with velocity 80.
    pub fn new(
        name: &str,
        program: Option<u8>,
        channel: Option<u8>,
        volume: Option<u8>,
        pan: Option<u8>,
    ) -> (r: TrackBuilder)
        ensures
            r.wf(),
            r.name_spec() == name@,
            r.program_spec() == program,
            r.channel_spec() == channel,
            r.volume_spec() == volume,
            r.pan_spec() == pan,
            r.cursor_spec() == 0,
            r.velocity_spec() == 80,
            r.articulation_spec() is None,
            r.events_spec().len() == 0,
            r.marks_spec().len() == 0,
            r.scales_spec().len() == 0,
    {
        TrackBuilder {
            name: owned(name),
            program,
            channel,
            volume,
            pan,
            cursor_tick: 0,
            velocity: 80,
            articulation: None,
            events: Vec::new(),
            overridden: Vec::new(),
            time_scales: Vec::new(),
        }
    }

    /// The ticks of `duration` after every active tuplet scaling, at least one.
    pub fn scaled_ticks(&self, duration: Duration) -> (r: u32)
        requires
            self.wf(),
        ensures
            r == self.ticks_for(duration),
    {
        let base = whole_ticks(duration);
        let mut ticks: u64 = base;
        let mut i: usize = 0;
        while i < self.time_scales.len()
            invariant
                self.wf(),
                i <= self.time_scales@.len(),
                ticks as nat == scaled(base as nat, self.time_scales@.take(i as int)),
            decreases self.time_scales@.len() - i,
        {
            let (count, space) = self.time_scales[i];
            assert(self.time_scales@[i as int].0 > 0);
            assert((ticks as nat) * (space as nat) <= (u64::MAX as nat) * (u32::MAX as nat))
                by (nonlinear_arith)
                requires
                    ticks <= u64::MAX,
                    space <= u32::MAX,
            ;
            let product: u128 = ticks as u128 * space as u128;
            assert(product == ticks as nat * space as nat);
            let capped: u64 = if product > u64::MAX as u128 {
                u64::MAX
            } else {
                product as u64
            };
            let divisor: u64 = count as u64 * 240;
            ticks = capped / divisor;
            proof {
                let s = self.time_scales@.take(i + 1);
                assert(s.drop_last() =~= self.time_scales@.take(i as int));
                assert(s.last() == (count, space));
            }
            i = i + 1;
        }
        assert(self.time_scales@.take(self.time_scales@.len() as int) =~= self.time_scales@);
        if ticks < 1 {
            1
        } else if ticks > u32::MAX as u64 {
            u32::MAX
        } else {
            ticks as u32
        }
    }

    /// Starts a tuplet: `count` notes take the space of `space_ticks`.
    pub fn push_time_scale(&mut self, count: u32, space_ticks: u32)
        requires
            old(self).wf(),
            count > 0,
        ensures
            final(self).wf(),
            final(self).scales_spec() == old(self).scales_spec().push((count, space_ticks)),
            final(self).events_spec() == old(self).events_spec(),
            final(self).cursor_spec() == old(self).cursor_spec(),
            final(self).velocity_spec() == old(self).velocity_spec(),
            final(self).articulation_spec() == old(self).articulation_spec(),
            final(self).marks_spec() == old(self).marks_spec(),
    {
        self.time_scales.push((count, space_ticks));
    }

    /// Ends the innermost tuplet.
    pub fn pop_time_scale(&mut self)
        requires
            old(self).wf(),
        ensures
            final(self).wf(),
            final(self).scales_spec() == if old(self).scales_spec().len() == 0 {
                old(self).scales_spec()
            } else {
                old(self).scales_spec().drop_last()
            },
            final(self).events_spec() == old(self).events_spec(),
            final(self).cursor_spec() == old(self).cursor_spec(),
            final(self).velocity_spec() == old(self).velocity_spec(),
            final(self).articulation_spec() == old(self).articulation_spec(),
            final(self).marks_spec() == old(self).marks_spec(),
    {
        if self.time_scales.len() > 0 {
            self.time_scales.pop();
            assert(self.time_scales@ =~= old(self).time_scales@.drop_last());
        }
    }

    /// Moves the cursor past `duration` with no sound.
    pub fn advance(&mut self, duration: Duration)
        requires
            old(self).wf(),
        ensures
            final(self).wf(),
            final(self).cursor_spec() == saturating(
                old(self).cursor_spec(),
                old(self).ticks_for(duration),
            ),
            final(self).events_spec() == old(self).events_spec(),
            final(self).velocity_spec() == old(self).velocity_spec(),
            final(self).articulation_spec() == old(self).articulation_spec(),
            final(self).marks_spec() == old(self).marks_spec(),
            final(self).scales_spec() == old(self).scales_spec(),
    {
        let ticks = self.scaled_ticks(duration);
        self.cursor_tick = if self.cursor_tick > u32::MAX - ticks {
            u32::MAX
        } else {
            self.cursor_tick + ticks
        };
    }

    /// Adds a note at the cursor and moves the cursor past it.
    pub fn push_note(&mut self, note: Note, source_span: Option<Span>)
        requires
            old(self).wf(),
        ensures
            final(self).wf(),
            final(self).events_spec() == old(self).events_spec().push(
                old(self).event_at(
                    note.pitch_spec(),
                    old(self).cursor_spec(),
                    old(self).ticks_for(note.duration_spec()),
                    source_span,
                ),
            ),
            final(self).cursor_spec() == saturating(
                old(self).cursor_spec(),
                old(self).ticks_for(note.duration_spec()),
            ),
            final(self).velocity_spec() == old(self).velocity_spec(),
            final(self).articulation_spec() == old(self).articulation_spec(),
            final(self).marks_spec() == old(self).marks_spec(),
            final(self).scales_spec() == old(self).scales_spec(),
            final(self).program_spec() == old(self).program_spec(),
    {
        let duration_ticks = self.scaled_ticks(note.duration());
        let event = NoteEventIr {
            pitch: note.pitch(),
            start_tick: self.cursor_tick,
            duration_ticks,
            velocity: self.velocity,
            articulation: copy_text_option(&self.articulation),
            source_span,
        };
        self.events.push(event);
        self.cursor_tick = if self.cursor_tick > u32::MAX - duration_ticks {
            u32::MAX
        } else {
            self.cursor_tick + duration_ticks
        };
    }

    /// Adds the note with a MIDI number (a drum sound, say) at the cursor and moves
    /// the cursor past it.
    pub fn push_midi_note(&mut self, midi: u8, duration: Duration, source_span: Option<Span>)
        requires
            old(self).wf(),
            midi <= 127,
        ensures
            final(self).wf(),
            final(self).events_spec() == old(self).events_spec().push(
                old(self).event_at(
                    Pitch::of_midi_spec(midi as int),
                    old(self).cursor_spec(),
                    old(self).ticks_for(duration),
                    source_span,
                ),
            ),
            final(self).cursor_spec() == saturating(old(self).cursor_spec(), old(self).ticks_for(duration)),
            final(self).velocity_spec() == old(self).velocity_spec(),
            final(self).articulation_spec() == old(self).articulation_spec(),
            final(self).marks_spec() == old(self).marks_spec(),
            final(self).scales_spec() == old(self).scales_spec(),
            final(self).program_spec() == old(self).program_spec(),
    {
        let pitch = match Pitch::from_midi_number(midi as i16) {
            Ok(p) => p,
            Err(_) => {
                assert(false);
                return;
            },
        };
        let note = Note::new(pitch, duration);
        self.push_note(note, source_span);
    }

    /// Adds every pitch of a chord at the cursor and moves the cursor past the chord.
    pub fn push_chord(&mut self, chord: Chord, source_span: Option<Span>)
        requires
            old(self).wf(),
        ensures
            final(self).wf(),
            final(self).events_spec().len() == old(self).events_spec().len()
                + chord.pitches_spec().len(),
            final(self).events_spec().take(old(self).events_spec().len() as int)
                == old(self).events_spec(),
            forall|i: int|
                0 <= i < chord.pitches_spec().len() ==> final(self).events_spec()[old(
                    self,
                ).events_spec().len() + i] == old(self).event_at(
                    chord.pitches_spec()[i],
                    old(self).cursor_spec(),
                    old(self).ticks_for(chord.duration_spec()),
                    source_span,
                ),
            final(self).cursor_spec() == saturating(
                old(self).cursor_spec(),
                old(self).ticks_for(chord.duration_spec()),
            ),
            final(self).velocity_spec() == old(self).velocity_spec(),
            final(self).articulation_spec() == old(self).articulation_spec(),
            final(self).marks_spec() == old(self).marks_spec(),
            final(self).scales_spec() == old(self).scales_spec(),
            final(self).program_spec() == old(self).program_spec(),
    {
        let duration_ticks = self.scaled_ticks(chord.duration());
        let pitches = chord.pitches();
        let ghost start_len = self.events@.len();
        let mut i: usize = 0;
        while i < pitches.len()
            invariant
                self.wf(),
                i <= pitches@.len(),
                pitches@ == chord.pitches_spec(),
                duration_ticks == old(self).ticks_for(chord.duration_spec()),
                start_len == old(self).events@.len(),
                self.events@.len() == start_len + i,
                self.events@.take(start_len as int) == old(self).events@,
                forall|k: int|
                    0 <= k < i ==> self.events@[start_len + k] == old(self).event_at(
                        pitches@[k],
                        old(self).cursor_tick,
                        duration_ticks,
                        source_span,
                    ),
                self.cursor_tick == old(self).cursor_tick,
                self.velocity == old(self).velocity,
                self.articulation == old(self).articulation,
                self.overridden == old(self).overridden,
                self.time_scales == old(self).time_scales,
                self.program == old(self).program,
            decreases pitches@.len() - i,
        {
            let event = NoteEventIr {
                pitch: pitches[i],
                start_tick: self.cursor_tick,
                duration_ticks,
                velocity: self.velocity,
                articulation: copy_text_option(&self.articulation),
                source_span,
            };
            self.events.push(event);
            assert(self.events@.take(start_len as int) =~= old(self).events@);
            i = i + 1;
        }
        self.cursor_tick = if self.cursor_tick > u32::MAX - duration_ticks {
            u32::MAX
        } else {
            self.cursor_tick + duration_ticks
        };
    }

    /// Sets the velocity of the notes that follow, at most 127.
    pub fn set_velocity(&mut self, velocity: u8)
        requires
            old(self).wf(),
        ensures
            final(self).wf(),
            final(self).velocity_spec() == if velocity > 127 {
                127u8
            } else {
                velocity
            },
            final(self).events_spec() == old(self).events_spec(),
            final(self).cursor_spec() == old(self).cursor_spec(),
            final(self).articulation_spec() == old(self).articulation_spec(),
            final(self).marks_spec() == old(self).marks_spec(),
            final(self).scales_spec() == old(self).scales_spec(),
            final(self).program_spec() == old(self).program_spec(),
    {
        self.velocity = if velocity > 127 {
            127
        } else {
            velocity
        };
    }

    /// Sets the articulation of the notes that follow.
    pub fn set_articulation(&mut self, articulation: &str)
        requires
            old(self).wf(),
        ensures
            final(self).wf(),
            final(self).articulation_spec() matches Some(a) && a@ == articulation@,
            final(self).events_spec() == old(self).events_spec(),
            final(self).cursor_spec() == old(self).cursor_spec(),
            final(self).velocity_spec() == old(self).velocity_spec(),
            final(self).marks_spec() == old(self).marks_spec(),
            final(self).scales_spec() == old(self).scales_spec(),
            final(self).program_spec() == old(self).program_spec(),
    {
        self.articulation = Some(owned(articulation));
    }

    pub fn program(&self) -> (r: Option<u8>)
        ensures
            r == self.program_spec(),
    {
        self.program
    }

    pub fn is_empty(&self) -> (r: bool)
        ensures
            r == (self.events_spec().len() == 0),
    {
        self.events.len() == 0
    }

    pub fn event_count(&self) -> (r: usize)
        ensures
            r == self.events_spec().len(),
    {
        self.events.len()
    }

    pub fn events(&self) -> (r: &[NoteEventIr])
        ensures
            r@ == self.events_spec(),
    {
        self.events.as_slice()
    }

    pub fn cursor_tick(&self) -> (r: u32)
        ensures
            r == self.cursor_spec(),
    {
        self.cursor_tick
    }

    /// Whether `rule` was suppressed for an event starting at `start_tick`.
    pub fn is_event_overridden(&self, rule: &str, start_tick: u32) -> (r: bool)
        ensures
            r == overridden_at(self.marks_spec(), rule@, start_tick),
    {
        let mut i: usize = 0;
        while i < self.overridden.len()
            invariant
                i <= self.overridden@.len(),
                forall|k: int|
                    0 <= k < i ==> !((#[trigger] self.overridden@[k]).0@ == rule@
                        && self.overridden@[k].1 == start_tick),
            decreases self.overridden@.len() - i,
        {
            if self.overridden[i].1 == start_tick && str_eq(self.overridden[i].0.as_str(), rule) {
                return true;
            }
            i = i + 1;
        }
        false
    }

    /// Suppresses `rule` at the start tick of every event from `start_event` on.
    pub fn mark_rule_override(&mut self, start_event: usize, rule: &str)
        requires
            old(self).wf(),
            start_event <= old(self).events_spec().len(),
        ensures
            final(self).wf(),
            forall|tick: u32, other: Seq<char>|
                overridden_at(final(self).marks_spec(), other, tick) <==> (overridden_at(
                    old(self).marks_spec(),
                    other,
                    tick,
                ) || (other == rule@ && exists|i: int|
                    start_event <= i < old(self).events_spec().len()
                        && (#[trigger] old(self).events_spec()[i]).start_tick == tick)),
            final(self).events_spec() == old(self).events_spec(),
            final(self).cursor_spec() == old(self).cursor_spec(),
            final(self).velocity_spec() == old(self).velocity_spec(),
            final(self).articulation_spec() == old(self).articulation_spec(),
            final(self).scales_spec() == old(self).scales_spec(),
            final(self).program_spec() == old(self).program_spec(),
    {
        let mut i = start_event;
        let ghost base = self.overridden@;
        while i < self.events.len()
            invariant
                start_event <= i <= self.events@.len(),
                self.events == old(self).events,
                base == old(self).overridden@,
                self.overridden@.len() == base.len() + (i - start_event),
                self.overridden@.take(base.len() as int) == base,
                forall|k: int|
                    0 <= k < i - start_event ==> (#[trigger] self.overridden@[base.len() + k]).0@
                        == rule@ && self.overridden@[base.len() + k].1 == self.events@[start_event
                        + k].start_tick,
                self.cursor_tick == old(self).cursor_tick,
                self.velocity == old(self).velocity,
                self.articulation == old(self).articulation,
                self.time_scales == old(self).time_scales,
                self.program == old(self).program,
            decreases self.events@.len() - i,
        {
            let tick = self.events[i].start_tick;
            self.overridden.push((owned(rule), tick));
            assert(self.overridden@.take(base.len() as int) =~= base);
            i = i + 1;
        }
        assert forall|tick: u32, other: Seq<char>|
            overridden_at(self.overridden@, other, tick) <==> (overridden_at(base, other, tick) || (
            other == rule@ && exists|j: int|
                start_event <= j < old(self).events@.len() && (#[trigger] old(
                    self,
                ).events@[j]).start_tick == tick)) by {
            if overridden_at(self.overridden@, other, tick) {
                let k = choose|k: int|
                    0 <= k < self.overridden@.len() && (#[trigger] self.overridden@[k]).0@ == other
                        && self.overridden@[k].1 == tick;
                if k < base.len() {
                    assert(base[k] == self.overridden@[k]);
                } else {
                    let j = k - base.len();
                    assert(self.overridden@[base.len() + j].1 == self.events@[start_event + j].start_tick);
                    assert(old(self).events@[start_event + j].start_tick == tick);
                }
            }
            if overridden_at(base, other, tick) {
                let k = choose|k: int|
                    0 <= k < base.len() && (#[trigger] base[k]).0@ == other && base[k].1 == tick;
                assert(self.overridden@[k] == base[k]);
            }
            if other == rule@ && exists|j: int|
                start_event <= j < old(self).events@.len() && (#[trigger] old(
                    self,
                ).events@[j]).start_tick == tick {
                let j = choose|j: int|
                    start_event <= j < old(self).events@.len() && (#[trigger] old(
                        self,
                    ).events@[j]).start_tick == tick;
                let k = base.len() + (j - start_event);
                assert(self.overridden@[k].0@ == rule@);
            }
        }
    }

    /// The finished track; the channel defaults to 0.
    pub fn finish(self) -> (r: TrackIr)
        requires
            self.wf(),
        ensures
            r.name@ == self.name_spec(),
            r.channel == match self.channel_spec() {
                Some(c) => c,
                None => 0u8,
            },
            r.program == self.program_spec(),
            r.volume == self.volume_spec(),
            r.pan == self.pan_spec(),
            r.events@ == self.events_spec(),
            sorted_by_start(r.events@),
            forall|i: int| 0 <= i < r.events@.len() ==> (#[trigger] r.events@[i]).velocity <= 127,
    {
        let channel = match self.channel {
            Some(c) => c,
            None => 0,
        };
        TrackIr {
            name: self.name,
            channel,
            program: self.program,
            volume: self.volume,
            pan: self.pan,
            events: self.events,
        }
    }
}

} // verus!
