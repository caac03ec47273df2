use vstd::prelude::*;

use crate::diagnostic::byte_len;
use crate::ir::{ScoreIr, TrackIr};
use crate::music::CoreError;
use crate::text::str_eq;
use midly::num::{u15, u24, u28, u4, u7};
use midly::{Format, Header, MetaMessage, MidiMessage, Smf, Timing, TrackEvent, TrackEventKind};

verus! {

#[verifier::external_type_specification]
#[verifier::external_body]
pub struct ExTrackEvent<'a>(midly::TrackEvent<'a>);

#[verifier::external_type_specification]
#[verifier::external_body]
pub struct ExIoError(std::io::Error);

/// A channel message of a track.
#[derive(Debug, Clone, Copy, PartialEq, Eq, Structural)]
pub enum ChannelMessage {
    ProgramChange { program: u8 },
    NoteOn { key: u8, velocity: u8 },
    NoteOff { key: u8, velocity: u8 },
    Controller { controller: u8, value: u8 },
}

/// One event of a standard MIDI file, before it is encoded.
#[derive(Debug, Clone, PartialEq, Eq)]
pub enum MidiItem {
    TrackName(String),
    Text(String),
    Tempo(u32),
    TimeSignature { numerator: u8, denominator_power: u8, clocks: u8, thirty_seconds: u8 },
    KeySignature { fifths: i8, minor: bool },
    Channel { channel: u8, message: ChannelMessage },
    EndOfTrack,
}

/// An event and the ticks since the event before it.
#[derive(Debug, Clone, PartialEq, Eq)]
pub struct MidiEvent {
    pub delta: u32,
    pub item: MidiItem,
}

/// The tracks of a standard MIDI file, the first one carrying the score's metadata.
#[derive(Debug, Clone, PartialEq, Eq)]
pub struct MidiPlan {
    pub ticks_per_quarter: u32,
    pub tracks: Vec<Vec<MidiEvent>>,
}

/// The velocity of a note after its articulation: an accent adds 16; at most 127.
pub open spec fn velocity_after(velocity: u8, accent: bool) -> u8 {
    let v: int = if accent {
        velocity + 16
    } else {
        velocity as int
    };
    if v > 127 {
        127
    } else {
        v as u8
    }
}

pub fn articulated_velocity(velocity: u8, articulation: Option<&str>) -> (r: u8)
    ensures
        r == velocity_after(
            velocity,
            match articulation {
                Some(a) => a@ == "accent"@,
                None => false,
            },
        ),
{
    let accent = match articulation {
        Some(a) => str_eq(a, "accent"),
        None => false,
    };
    let v: u16 = if accent {
        velocity as u16 + 16
    } else {
        velocity as u16
    };
    if v > 127 {
        127
    } else {
        v as u8
    }
}

/// The sounding length of a note after its articulation: staccato halves it, at least one tick.
pub open spec fn duration_after(duration_ticks: u32, staccato: bool) -> u32 {
    if staccato {
        if duration_ticks / 2 < 1 {
            1
        } else {
            duration_ticks / 2
        }
    } else {
        duration_ticks
    }
}

pub fn articulated_duration(duration_ticks: u32, articulation: Option<&str>) -> (r: u32)
    ensures
        r == duration_after(
            duration_ticks,
            match articulation {
                Some(a) => a@ == "staccato"@,
                None => false,
            },
        ),
{
    let staccato = match articulation {
        Some(a) => str_eq(a, "staccato"),
        None => false,
    };
    if staccato {
        let half = duration_ticks / 2;
        if half < 1 {
            1
        } else {
            half
        }
    } else {
        duration_ticks
    }
}

/// Note-offs sort before every other event at the same tick.
pub open spec fn order_of(message: ChannelMessage) -> u8 {
    match message {
        ChannelMessage::NoteOff { .. } => 0,
        _ => 1,
    }
}

pub fn event_order(message: ChannelMessage) -> (r: u8)
    ensures
        r == order_of(message),
{
    match message {
        ChannelMessage::NoteOff { .. } => 0,
        _ => 1,
    }
}

/// The sort key of a timed message: its tick, then note-offs first.
pub open spec fn key_of(e: (u32, ChannelMessage)) -> int {
    e.0 as int * 2 + order_of(e.1) as int
}

/// Timed messages in the order of their keys.
pub open spec fn sorted_by_key(s: Seq<(u32, ChannelMessage)>) -> bool {
    forall|i: int, j: int| 0 <= i <= j < s.len() ==> key_of(#[trigger] s[i]) <= key_of(#[trigger] s[j])
}

/// Where a message goes in a sorted sequence: after every message whose key is not larger.
pub open spec fn stable_position(s: Seq<(u32, ChannelMessage)>, e: (u32, ChannelMessage)) -> int
    decreases s.len(),
{
    if s.len() == 0 {
        0
    } else if key_of(s[0]) > key_of(e) {
        0
    } else {
        1 + stable_position(s.drop_first(), e)
    }
}

/// Messages in key order, equal keys in the order they were given (a stable sort).
pub open spec fn stable_sorted(s: Seq<(u32, ChannelMessage)>) -> Seq<(u32, ChannelMessage)>
    decreases s.len(),
{
    if s.len() == 0 {
        Seq::empty()
    } else {
        let sorted = stable_sorted(s.drop_last());
        sorted.insert(stable_position(sorted, s.last()), s.last())
    }
}

proof fn lemma_stable_position(s: Seq<(u32, ChannelMessage)>, e: (u32, ChannelMessage), p: int)
    requires
        0 <= p <= s.len(),
        forall|k: int| 0 <= k < p ==> key_of(#[trigger] s[k]) <= key_of(e),
        p == s.len() || key_of(s[p]) > key_of(e),
    ensures
        stable_position(s, e) == p,
    decreases p,
{
    if p > 0 {
        let rest = s.drop_first();
        assert forall|k: int| 0 <= k < p - 1 implies key_of(#[trigger] rest[k]) <= key_of(e) by {
            assert(rest[k] == s[k + 1]);
        }
        if p < s.len() {
            assert(rest[p - 1] == s[p]);
        }
        lemma_stable_position(rest, e, p - 1);
        assert(key_of(s[0]) <= key_of(e));
    }
}

/// Inserts a timed message after every message whose key is not larger.
fn insert_stable(v: &mut Vec<(u32, ChannelMessage)>, e: (u32, ChannelMessage))
    requires
        sorted_by_key(old(v)@),
    ensures
        sorted_by_key(final(v)@),
        final(v)@.len() == old(v)@.len() + 1,
        final(v)@.to_multiset() == old(v)@.to_multiset().insert(e),
        final(v)@ == old(v)@.insert(stable_position(old(v)@, e), e),
{
    let key: u64 = e.0 as u64 * 2 + event_order(e.1) as u64;
    let mut p: usize = 0;
    while p < v.len() && (v[p].0 as u64 * 2 + event_order(v[p].1) as u64) <= key
        invariant
            p <= v@.len(),
            v@ == old(v)@,
            key == key_of(e),
            forall|k: int| 0 <= k < p ==> key_of(#[trigger] v@[k]) <= key,
        decreases v@.len() - p,
    {
        p = p + 1;
    }
    proof {
        lemma_stable_position(v@, e, p as int);
    }
    v.insert(p, e);
    proof {
        vstd::seq_lib::to_multiset_insert(old(v)@, p as int, e);
        assert(v@ == old(v)@.insert(p as int, e));
    }
    assert forall|a: int, b: int| 0 <= a <= b < v@.len() implies key_of(#[trigger] v@[a]) <= key_of(
        #[trigger] v@[b],
    ) by {
        if b < p {
            assert(v@[a] == old(v)@[a] && v@[b] == old(v)@[b]);
        } else if b == p {
            if a < p {
                assert(v@[a] == old(v)@[a]);
            }
        } else if a == p {
            assert(v@[b] == old(v)@[b - 1]);
            assert(key_of(old(v)@[p as int]) > key);
            assert(key_of(old(v)@[p as int]) <= key_of(old(v)@[b - 1]));
        } else if a < p {
            assert(v@[a] == old(v)@[a] && v@[b] == old(v)@[b - 1]);
        } else {
            assert(v@[a] == old(v)@[a - 1] && v@[b] == old(v)@[b - 1]);
        }
    }
}

/// Microseconds per quarter note at a tempo; a tempo of zero counts as one.
pub open spec fn microseconds_per_quarter(tempo_bpm: u16) -> u32 {
    (60_000_000int / if tempo_bpm < 1 {
        1int
    } else {
        tempo_bpm as int
    }) as u32
}

/// The number of trailing zero bits of a byte; eight for zero.
pub open spec fn trailing_zeros(d: u8) -> u8 {
    if d == 0 {
        8
    } else if d % 2 != 0 {
        0
    } else if d % 4 != 0 {
        1
    } else if d % 8 != 0 {
        2
    } else if d % 16 != 0 {
        3
    } else if d % 32 != 0 {
        4
    } else if d % 64 != 0 {
        5
    } else if d % 128 != 0 {
        6
    } else {
        7
    }
}

/// The power of two in a time signature's denominator: for a nonzero `d`, two to the power
/// `trailing_zeros(d)` divides `d` and leaves an odd quotient, so a power-of-two denominator
/// `d` is exactly two to that power (an eighth-note meter has power 3).
pub proof fn lemma_trailing_zeros_power(d: u8)
    requires
        d > 0,
    ensures
        d as nat % vstd::arithmetic::power2::pow2(trailing_zeros(d) as nat) == 0,
        (d as nat / vstd::arithmetic::power2::pow2(trailing_zeros(d) as nat)) % 2 == 1,
{
    vstd::arithmetic::power2::lemma2_to64();
    assert(d % 1 == 0 && d % 2 != 0 ==> (d / 1) % 2 == 1) by (bit_vector);
    assert(d % 2 == 0 && d % 4 != 0 ==> (d / 2) % 2 == 1) by (bit_vector);
    assert(d % 4 == 0 && d % 8 != 0 ==> (d / 4) % 2 == 1) by (bit_vector);
    assert(d % 8 == 0 && d % 16 != 0 ==> (d / 8) % 2 == 1) by (bit_vector);
    assert(d % 16 == 0 && d % 32 != 0 ==> (d / 16) % 2 == 1) by (bit_vector);
    assert(d % 32 == 0 && d % 64 != 0 ==> (d / 32) % 2 == 1) by (bit_vector);
    assert(d % 64 == 0 && d % 128 != 0 ==> (d / 64) % 2 == 1) by (bit_vector);
    assert(d > 0 && d % 128 == 0 ==> d / 128 == 1) by (bit_vector);
}

fn count_trailing_zeros(d: u8) -> (r: u8)
    ensures
        r == trailing_zeros(d),
{
    if d == 0 {
        8
    } else if d % 2 != 0 {
        0
    } else if d % 4 != 0 {
        1
    } else if d % 8 != 0 {
        2
    } else if d % 16 != 0 {
        3
    } else if d % 32 != 0 {
        4
    } else if d % 64 != 0 {
        5
    } else if d % 128 != 0 {
        6
    } else {
        7
    }
}

/// The text event naming the composer, where there is one.
pub open spec fn composer_events(composer: Option<String>) -> Seq<MidiEvent> {
    match composer {
        Some(c) => seq![MidiEvent { delta: 0, item: MidiItem::Text(c) }],
        None => Seq::empty(),
    }
}

/// The time signature event of a meter, where there is one.
pub open spec fn meter_events(meter: Option<crate::ir::Meter>) -> Seq<MidiEvent> {
    match meter {
        Some(m) => seq![
            MidiEvent {
                delta: 0,
                item: MidiItem::TimeSignature {
                    numerator: m.numerator,
                    denominator_power: trailing_zeros(m.denominator),
                    clocks: 24,
                    thirty_seconds: 8,
                },
            },
        ],
        None => Seq::empty(),
    }
}

/// The key signature event, where there is one.
pub open spec fn key_events(key: Option<crate::ir::KeySignature>) -> Seq<MidiEvent> {
    match key {
        Some(k) => seq![
            MidiEvent { delta: 0, item: MidiItem::KeySignature { fifths: k.fifths, minor: k.is_minor } },
        ],
        None => Seq::empty(),
    }
}

/// The events of the metadata track of a score, all at tick zero: its title,
/// composer, tempo, meter and key, and the end of the track.
pub open spec fn tempo_track(score: ScoreIr) -> Seq<MidiEvent> {
    seq![MidiEvent { delta: 0, item: MidiItem::TrackName(score.title) }] + composer_events(
        score.composer,
    ) + seq![
        MidiEvent { delta: 0, item: MidiItem::Tempo(microseconds_per_quarter(score.tempo_bpm)) },
    ] + meter_events(score.meter) + key_events(score.key) + seq![
        MidiEvent { delta: 0, item: MidiItem::EndOfTrack },
    ]
}

fn build_tempo_track(score: &ScoreIr) -> (r: Vec<MidiEvent>)
    ensures
        r@ == tempo_track(*score),
{
    let mut out: Vec<MidiEvent> = Vec::new();
    out.push(MidiEvent { delta: 0, item: MidiItem::TrackName(score.title.clone()) });
    let ghost acc = seq![MidiEvent { delta: 0, item: MidiItem::TrackName(score.title) }];
    assert(out@ =~= acc);
    match &score.composer {
        Some(c) => {
            out.push(MidiEvent { delta: 0, item: MidiItem::Text(c.clone()) });
        },
        None => {},
    }
    proof {
        acc = acc + composer_events(score.composer);
        assert(out@ =~= acc);
    }
    let tempo: u16 = if score.tempo_bpm < 1 {
        1
    } else {
        score.tempo_bpm
    };
    let micros: u32 = 60_000_000 / tempo as u32;
    out.push(MidiEvent { delta: 0, item: MidiItem::Tempo(micros) });
    proof {
        acc = acc + seq![
            MidiEvent { delta: 0, item: MidiItem::Tempo(microseconds_per_quarter(score.tempo_bpm)) },
        ];
        assert(out@ =~= acc);
    }
    match score.meter {
        Some(m) => {
            out.push(
                MidiEvent {
                    delta: 0,
                    item: MidiItem::TimeSignature {
                        numerator: m.numerator,
                        denominator_power: count_trailing_zeros(m.denominator),
                        clocks: 24,
                        thirty_seconds: 8,
                    },
                },
            );
        },
        None => {},
    }
    proof {
        acc = acc + meter_events(score.meter);
        assert(out@ =~= acc);
    }
    match score.key {
        Some(k) => {
            out.push(
                MidiEvent { delta: 0, item: MidiItem::KeySignature { fifths: k.fifths, minor: k.is_minor } },
            );
        },
        None => {},
    }
    proof {
        acc = acc + key_events(score.key);
        assert(out@ =~= acc);
    }
    out.push(MidiEvent { delta: 0, item: MidiItem::EndOfTrack });
    proof {
        acc = acc + seq![MidiEvent { delta: 0, item: MidiItem::EndOfTrack }];
        assert(out@ =~= acc);
        assert(acc =~= tempo_track(*score));
    }
    out
}

/// Whether every event of a track has a MIDI number.
pub open spec fn playable(track: TrackIr) -> bool {
    forall|i: int| 0 <= i < track.events@.len() ==> (#[trigger] track.events@[i]).pitch.midi_spec() is Ok
}

/// The absolute tick reached after the first `n` deltas.
pub open spec fn tick_after(events: Seq<MidiEvent>, n: int) -> int
    decreases n,
{
    if n <= 0 {
        0
    } else {
        tick_after(events, n - 1) + events[n - 1].delta
    }
}

/// The MIDI number of a pitch; zero for one that has none.
pub open spec fn key_number(p: crate::music::Pitch) -> u8 {
    match p.midi_spec() {
        Ok(m) => m,
        Err(_) => 0,
    }
}

/// Whether an event's articulation is the given one.
pub open spec fn articulated(e: crate::ir::NoteEventIr, name: Seq<char>) -> bool {
    match e.articulation {
        Some(a) => a@ == name,
        None => false,
    }
}

/// The tick at which an event's note ends: its start plus its articulated length,
/// at most the largest tick.
pub open spec fn note_end(e: crate::ir::NoteEventIr) -> u32 {
    let end = e.start_tick + duration_after(e.duration_ticks, articulated(e, "staccato"@));
    if end > u32::MAX {
        u32::MAX
    } else {
        end as u32
    }
}

/// The messages of some events, in order: a note-on at each start, with the
/// articulated velocity, and a note-off at each end.
pub open spec fn event_messages(events: Seq<crate::ir::NoteEventIr>) -> Seq<(u32, ChannelMessage)>
    decreases events.len(),
{
    if events.len() == 0 {
        Seq::empty()
    } else {
        let e = events.last();
        event_messages(events.drop_last()) + seq![
            (
                e.start_tick,
                ChannelMessage::NoteOn {
                    key: key_number(e.pitch),
                    velocity: velocity_after(e.velocity, articulated(e, "accent"@)),
                },
            ),
            (note_end(e), ChannelMessage::NoteOff { key: key_number(e.pitch), velocity: 0 }),
        ]
    }
}

/// A MIDI data value: at most 127.
pub open spec fn data_value(v: u8) -> u8 {
    if v > 127 {
        127u8
    } else {
        v
    }
}

/// The messages that set a track up at tick zero, where it has them: its program, its
/// volume as controller 7 and its pan as controller 10, each value at most 127.
pub open spec fn setup_messages(track: TrackIr) -> Seq<(u32, ChannelMessage)> {
    let program: Seq<(u32, ChannelMessage)> = match track.program {
        Some(p) => seq![(0u32, ChannelMessage::ProgramChange { program: data_value(p) })],
        None => Seq::empty(),
    };
    let volume: Seq<(u32, ChannelMessage)> = match track.volume {
        Some(v) => seq![(0u32, ChannelMessage::Controller { controller: 7, value: data_value(v) })],
        None => Seq::empty(),
    };
    let pan: Seq<(u32, ChannelMessage)> = match track.pan {
        Some(v) => seq![(0u32, ChannelMessage::Controller { controller: 10, value: data_value(v) })],
        None => Seq::empty(),
    };
    program + volume + pan
}

/// The messages of a track before ordering: those that set it up, then those of its events.
pub open spec fn note_messages(track: TrackIr) -> Seq<(u32, ChannelMessage)> {
    setup_messages(track) + event_messages(track.events@)
}

/// Messages that all share the first key stay in the order given.
proof fn lemma_setup_sorted(s: Seq<(u32, ChannelMessage)>)
    requires
        forall|k: int| 0 <= k < s.len() ==> key_of(#[trigger] s[k]) == 1,
    ensures
        stable_sorted(s) == s,
        sorted_by_key(s),
    decreases s.len(),
{
    if s.len() > 0 {
        let rest = s.drop_last();
        assert forall|k: int| 0 <= k < rest.len() implies key_of(#[trigger] rest[k]) == 1 by {
            assert(rest[k] == s[k]);
        }
        lemma_setup_sorted(rest);
        lemma_stable_position(rest, s.last(), rest.len() as int);
        assert(rest.insert(rest.len() as int, s.last()) =~= s);
    }
}

/// The channel events of ordered messages, each with the ticks since the one before.
pub open spec fn delta_events(msgs: Seq<(u32, ChannelMessage)>, channel: u8) -> Seq<MidiEvent>
    decreases msgs.len(),
{
    if msgs.len() == 0 {
        Seq::empty()
    } else {
        let previous: int = if msgs.len() >= 2 {
            msgs[msgs.len() - 2].0 as int
        } else {
            0
        };
        delta_events(msgs.drop_last(), channel).push(
            MidiEvent {
                delta: (msgs.last().0 - previous) as u32,
                item: MidiItem::Channel { channel, message: msgs.last().1 },
            },
        )
    }
}

/// The events of a note track: its name, its messages in stable key order on its
/// channel (at most 15), and the end of the track.
pub open spec fn note_track(track: TrackIr) -> Seq<MidiEvent> {
    seq![MidiEvent { delta: 0, item: MidiItem::TrackName(track.name) }] + delta_events(
        stable_sorted(note_messages(track)),
        if track.channel > 15 {
            15u8
        } else {
            track.channel
        },
    ) + seq![MidiEvent { delta: 0, item: MidiItem::EndOfTrack }]
}

/// The timed channel messages of a track: a program change at the start, then a
/// note-on and a note-off for each event.
fn timed_messages(track: &TrackIr) -> (r: Result<Vec<(u32, ChannelMessage)>, CoreError>)
    ensures
        r is Ok <==> playable(*track),
        r matches Ok(v) ==> sorted_by_key(v@) && v@.len() == 2 * track.events@.len() + setup_messages(
            *track,
        ).len(),
        r matches Ok(v) ==> v@ == stable_sorted(note_messages(*track)),
{
    let mut messages: Vec<(u32, ChannelMessage)> = Vec::new();
    match track.program {
        Some(program) => {
            let p = if program > 127 {
                127
            } else {
                program
            };
            messages.push((0, ChannelMessage::ProgramChange { program: p }));
        },
        None => {},
    }
    match track.volume {
        Some(volume) => {
            let v = if volume > 127 {
                127
            } else {
                volume
            };
            messages.push((0, ChannelMessage::Controller { controller: 7, value: v }));
        },
        None => {},
    }
    match track.pan {
        Some(pan) => {
            let v = if pan > 127 {
                127
            } else {
                pan
            };
            messages.push((0, ChannelMessage::Controller { controller: 10, value: v }));
        },
        None => {},
    }
    let ghost program: Seq<(u32, ChannelMessage)> = setup_messages(*track);
    let ghost base: int = program.len() as int;
    proof {
        assert(messages@ =~= program);
        assert forall|k: int| 0 <= k < program.len() implies key_of(#[trigger] program[k]) == 1 by {}
        lemma_setup_sorted(program);
        assert(event_messages(track.events@.take(0)) =~= Seq::<(u32, ChannelMessage)>::empty());
        assert(program + event_messages(track.events@.take(0)) =~= program);
    }
    let mut i: usize = 0;
    while i < track.events.len()
        invariant
            i <= track.events@.len(),
            sorted_by_key(messages@),
            messages@.len() == base + 2 * i,
            base == setup_messages(*track).len(),
            program == setup_messages(*track),
            messages@ == stable_sorted(program + event_messages(track.events@.take(i as int))),
            forall|k: int| 0 <= k < i ==> (#[trigger] track.events@[k]).pitch.midi_spec() is Ok,
        decreases track.events@.len() - i,
    {
        let event = &track.events[i];
        let key = match event.pitch.midi_number() {
            Ok(m) => m,
            Err(e) => return Err(e),
        };
        let articulation = match &event.articulation {
            Some(a) => Some(a.as_str()),
            None => None,
        };
        let velocity = articulated_velocity(event.velocity, articulation);
        let duration = articulated_duration(event.duration_ticks, articulation);
        let end = if event.start_tick > u32::MAX - duration {
            u32::MAX
        } else {
            event.start_tick + duration
        };
        let ghost before = program + event_messages(track.events@.take(i as int));
        let ghost on = (event.start_tick, ChannelMessage::NoteOn { key, velocity });
        let ghost off = (end, ChannelMessage::NoteOff { key, velocity: 0 });
        proof {
            let e = track.events@[i as int];
            assert(track.events@.take(i + 1).drop_last() =~= track.events@.take(i as int));
            assert(track.events@.take(i + 1).last() == e);
            assert(key == key_number(e.pitch));
            assert(end == note_end(e));
            assert(event_messages(track.events@.take(i + 1)) =~= event_messages(track.events@.take(i as int)) + seq![on, off]);
            let after = program + event_messages(track.events@.take(i + 1));
            assert(after =~= before + seq![on, off]);
            assert(after.drop_last() =~= before.push(on));
            assert(after.last() == off);
            assert(before.push(on).drop_last() =~= before);
            assert(before.push(on).last() == on);
        }
        insert_stable(&mut messages, (event.start_tick, ChannelMessage::NoteOn { key, velocity }));
        insert_stable(&mut messages, (end, ChannelMessage::NoteOff { key, velocity: 0 }));
        proof {
            let after = program + event_messages(track.events@.take(i + 1));
            let mid = before.push(on);
            assert(stable_sorted(mid) == stable_sorted(mid.drop_last()).insert(
                stable_position(stable_sorted(mid.drop_last()), mid.last()),
                mid.last(),
            ));
            assert(stable_sorted(after) == stable_sorted(after.drop_last()).insert(
                stable_position(stable_sorted(after.drop_last()), after.last()),
                after.last(),
            ));
        }
        i = i + 1;
    }
    assert(track.events@.take(i as int) =~= track.events@);
    Ok(messages)
}

/// The events of one note track: its name, its messages as deltas, and the end.
fn build_note_track(track: &TrackIr) -> (r: Result<Vec<MidiEvent>, CoreError>)
    ensures
        r is Ok <==> playable(*track),
        r matches Ok(v) ==> v@.len() >= 2 && v@[0] == (MidiEvent {
            delta: 0,
            item: MidiItem::TrackName(track.name),
        }) && v@.last() == (MidiEvent { delta: 0, item: MidiItem::EndOfTrack }),
        r matches Ok(v) ==> v@ == note_track(*track),
{
    let messages = match timed_messages(track) {
        Ok(m) => m,
        Err(e) => return Err(e),
    };
    let channel = if track.channel > 15 {
        15
    } else {
        track.channel
    };
    let mut out: Vec<MidiEvent> = Vec::new();
    out.push(MidiEvent { delta: 0, item: MidiItem::TrackName(track.name.clone()) });
    let ghost head = seq![MidiEvent { delta: 0, item: MidiItem::TrackName(track.name) }];
    let mut cursor: u32 = 0;
    let mut i: usize = 0;
    assert(delta_events(messages@.take(0), channel) =~= Seq::<MidiEvent>::empty());
    assert(out@ =~= head + delta_events(messages@.take(0), channel));
    while i < messages.len()
        invariant
            i <= messages@.len(),
            sorted_by_key(messages@),
            out@.len() >= 1,
            out@[0] == (MidiEvent { delta: 0, item: MidiItem::TrackName(track.name) }),
            i > 0 ==> cursor == messages@[i - 1].0,
            i == 0 ==> cursor == 0,
            head == seq![MidiEvent { delta: 0, item: MidiItem::TrackName(track.name) }],
            out@ == head + delta_events(messages@.take(i as int), channel),
        decreases messages@.len() - i,
    {
        let (tick, message) = messages[i];
        proof {
            if i > 0 {
                assert(key_of(messages@[i - 1]) <= key_of(messages@[i as int]));
            }
        }
        out.push(MidiEvent { delta: tick - cursor, item: MidiItem::Channel { channel, message } });
        proof {
            let t = messages@.take(i + 1);
            assert(t.drop_last() =~= messages@.take(i as int));
            assert(t.last() == messages@[i as int]);
            if i > 0 {
                assert(t[t.len() - 2] == messages@[i - 1]);
            }
            assert(out@ =~= head + delta_events(t, channel));
        }
        cursor = tick;
        i = i + 1;
    }
    out.push(MidiEvent { delta: 0, item: MidiItem::EndOfTrack });
    assert(messages@.take(i as int) =~= messages@);
    assert(out@ =~= note_track(*track));
    Ok(out)
}

/// The MIDI file of a score: a metadata track, then one track per score track.
/// Fails when an event's pitch has no MIDI number.
pub fn midi_plan(score: &ScoreIr) -> (r: Result<MidiPlan, CoreError>)
    ensures
        r is Ok <==> forall|t: int| 0 <= t < score.tracks@.len() ==> playable(#[trigger] score.tracks@[t]),
        r matches Ok(plan) ==> plan.ticks_per_quarter == score.ticks_per_quarter
            && plan.tracks@.len() == score.tracks@.len() + 1 && plan.tracks@[0]@ == tempo_track(*score),
        r matches Ok(plan) ==> forall|t: int|
            0 <= t < score.tracks@.len() ==> (#[trigger] plan.tracks@[t + 1])@ == note_track(score.tracks@[t]),
{
    let mut tracks: Vec<Vec<MidiEvent>> = Vec::new();
    tracks.push(build_tempo_track(score));
    let mut i: usize = 0;
    while i < score.tracks.len()
        invariant
            i <= score.tracks@.len(),
            tracks@.len() == i + 1,
            tracks@[0]@ == tempo_track(*score),
            forall|t: int| 0 <= t < i ==> (#[trigger] tracks@[t + 1])@ == note_track(score.tracks@[t]),
            forall|t: int| 0 <= t < i ==> playable(#[trigger] score.tracks@[t]),
        decreases score.tracks@.len() - i,
    {
        match build_note_track(&score.tracks[i]) {
            Ok(events) => tracks.push(events),
            Err(e) => return Err(e),
        }
        i = i + 1;
    }
    Ok(MidiPlan { ticks_per_quarter: score.ticks_per_quarter, tracks })
}

/// How the tracks of a standard MIDI file relate: one track, tracks played together, or tracks
/// played one after another.
#[derive(Debug, Clone, Copy, PartialEq, Eq)]
pub enum SmfFormat {
    SingleTrack,
    Parallel,
    Sequential,
}

/// The format word's value in a file header.
pub open spec fn format_code(format: SmfFormat) -> u8 {
    match format {
        SmfFormat::SingleTrack => 0,
        SmfFormat::Parallel => 1,
        SmfFormat::Sequential => 2,
    }
}

/// The fourteen bytes that open a standard MIDI file: the `MThd` chunk with the format, the
/// track count and the ticks per quarter note (low 15 bits).
pub open spec fn smf_header(format: SmfFormat, ticks_per_quarter: u16, track_count: nat) -> Seq<u8> {
    seq![
        0x4du8,
        0x54u8,
        0x68u8,
        0x64u8,
        0u8,
        0u8,
        0u8,
        6u8,
        0u8,
        format_code(format),
        (track_count / 256) as u8,
        (track_count % 256) as u8,
        ((ticks_per_quarter % 32768) / 256) as u8,
        (ticks_per_quarter % 256) as u8,
    ]
}

/// `midly`: a track-name meta event (`TrackEvent` with `u28::new(delta)`, which keeps
/// the low 28 bits). The event is opaque here: nothing is stated of it.
#[verifier::external_body]
fn track_name_event<'a>(delta: u32, name: &'a [u8]) -> TrackEvent<'a> {
    TrackEvent { delta: u28::new(delta), kind: TrackEventKind::Meta(MetaMessage::TrackName(name)) }
}

/// `midly`: a text meta event; opaque, as above.
#[verifier::external_body]
fn text_event<'a>(delta: u32, text: &'a [u8]) -> TrackEvent<'a> {
    TrackEvent { delta: u28::new(delta), kind: TrackEventKind::Meta(MetaMessage::Text(text)) }
}

/// `midly`: a tempo meta event (`u24::new` keeps the low 24 bits); opaque.
#[verifier::external_body]
fn tempo_event(delta: u32, micros: u32) -> TrackEvent<'static> {
    TrackEvent {
        delta: u28::new(delta),
        kind: TrackEventKind::Meta(MetaMessage::Tempo(u24::new(micros))),
    }
}

/// `midly`: a time-signature meta event; opaque.
#[verifier::external_body]
fn time_signature_event(delta: u32, n: u8, d: u8, c: u8, b: u8) -> TrackEvent<'static> {
    TrackEvent {
        delta: u28::new(delta),
        kind: TrackEventKind::Meta(MetaMessage::TimeSignature(n, d, c, b)),
    }
}

/// `midly`: a key-signature meta event; opaque.
#[verifier::external_body]
fn key_signature_event(delta: u32, fifths: i8, minor: bool) -> TrackEvent<'static> {
    TrackEvent {
        delta: u28::new(delta),
        kind: TrackEventKind::Meta(MetaMessage::KeySignature(fifths, minor)),
    }
}

/// `midly`: the end-of-track meta event; opaque.
#[verifier::external_body]
fn end_of_track_event(delta: u32) -> TrackEvent<'static> {
    TrackEvent { delta: u28::new(delta), kind: TrackEventKind::Meta(MetaMessage::EndOfTrack) }
}

/// `midly`: a channel message (`u4::new` and `u7::new` keep the low 4 and 7 bits);
/// opaque.
#[verifier::external_body]
fn channel_event(delta: u32, channel: u8, message: ChannelMessage) -> TrackEvent<'static> {
    let message = match message {
        ChannelMessage::ProgramChange { program } => MidiMessage::ProgramChange { program: u7::new(program) },
        ChannelMessage::NoteOn { key, velocity } => MidiMessage::NoteOn { key: u7::new(key), vel: u7::new(velocity) },
        ChannelMessage::NoteOff { key, velocity } => MidiMessage::NoteOff { key: u7::new(key), vel: u7::new(velocity) },
        ChannelMessage::Controller { controller, value } => {
            MidiMessage::Controller { controller: u7::new(controller), value: u7::new(value) }
        },
    };
    TrackEvent { delta: u28::new(delta), kind: TrackEventKind::Midi { channel: u4::new(channel), message } }
}

/// The bytes of data that an event carries besides its fixed fields: the UTF-8 bytes of a
/// name or a text.
pub open spec fn item_data_len(item: MidiItem) -> nat {
    match item {
        MidiItem::TrackName(s) => byte_len(s@),
        MidiItem::Text(s) => byte_len(s@),
        _ => 0,
    }
}

/// At least the bytes that a track's events take once encoded: each event's delta (at most
/// four bytes), its status, type and length (at most six) and its data, counted as sixteen
/// plus its data.
pub open spec fn track_bytes_bound(events: Seq<MidiEvent>) -> nat
    decreases events.len(),
{
    if events.len() == 0 {
        0
    } else {
        track_bytes_bound(events.drop_last()) + 16 + item_data_len(events.last().item)
    }
}

/// Tracks that the encoder takes: at most 65535 of them, every text shorter than 2^28 bytes
/// and every track's chunk shorter than 2^32 bytes.
pub open spec fn encodable(tracks: Seq<Seq<MidiEvent>>) -> bool {
    &&& tracks.len() <= 0xffff
    &&& forall|t: int| 0 <= t < tracks.len() ==> #[trigger] track_bytes_bound(tracks[t]) < 0x1_0000_0000
    &&& forall|t: int, k: int|
        0 <= t < tracks.len() && 0 <= k < tracks[t].len() ==> item_data_len(#[trigger] tracks[t][k].item)
            < 0x1000_0000
}

/// The tracks of a plan as sequences of events.
pub open spec fn tracks_view(tracks: Seq<Vec<MidiEvent>>) -> Seq<Seq<MidiEvent>> {
    tracks.map_values(|t: Vec<MidiEvent>| t@)
}

/// The bytes that `midly` writes for a standard MIDI file of the given format, ticks per
/// quarter note and tracks of events.
pub uninterp spec fn smf_bytes(format: SmfFormat, ticks_per_quarter: u16, tracks: Seq<Seq<MidiEvent>>) -> Seq<u8>;

/// `midly`: `Smf::write_std` into a byte vector, of a file in the given format with metrical
/// timing (`u15::new(ticks_per_quarter)`) and the tracks' events converted one by one. The
/// bytes are a function of these arguments. The source shows that the header chunk comes
/// first, and that writing into a vector fails only for more than 65535 tracks, a text of
/// 2^28 bytes or more, or a track chunk of 2^32 bytes or more (an event takes at most ten
/// bytes besides its data). What the events encode to is named, not stated.
#[verifier::external_body]
fn write_smf(format: SmfFormat, ticks_per_quarter: u16, tracks: &Vec<Vec<MidiEvent>>) -> (r: Result<
    Vec<u8>,
    std::io::Error,
>)
    ensures
        tracks@.len() > 0xffff ==> r is Err,
        encodable(tracks_view(tracks@)) ==> r is Ok,
        r matches Ok(bytes) ==> bytes@ == smf_bytes(format, ticks_per_quarter, tracks_view(tracks@)),
        r matches Ok(bytes) ==> bytes@.len() >= 14 && bytes@.take(14) == smf_header(
            format,
            ticks_per_quarter,
            tracks@.len(),
        ),
{
    let format = match format {
        SmfFormat::SingleTrack => Format::SingleTrack,
        SmfFormat::Parallel => Format::Parallel,
        SmfFormat::Sequential => Format::Sequential,
    };
    let header = Header::new(format, Timing::Metrical(u15::new(ticks_per_quarter)));
    let tracks: Vec<Vec<TrackEvent>> = tracks.iter().map(|t| t.iter().map(|e| encode_event(e)).collect()).collect();
    let mut bytes = Vec::new();
    Smf { header, tracks }.write_std(&mut bytes).map(|_| bytes)
}

/// `std`: the message of an I/O error (`ToString` through its `Display`). Nothing is
/// stated of the text.
#[verifier::external_body]
fn io_error_text(error: &std::io::Error) -> String {
    error.to_string()
}

/// Why a score could not be written as a MIDI file.
#[derive(Debug, Clone, PartialEq, Eq)]
pub enum MidiError {
    /// A note's pitch has no MIDI number.
    Pitch(CoreError),
    /// The encoder refused the file (too many tracks, or a chunk too long).
    Encoding(String),
}

/// One planned event as a `midly` event.
fn encode_event<'a>(event: &'a MidiEvent) -> TrackEvent<'a> {
    match &event.item {
        MidiItem::TrackName(name) => track_name_event(event.delta, name.as_str().as_bytes()),
        MidiItem::Text(text) => text_event(event.delta, text.as_str().as_bytes()),
        MidiItem::Tempo(micros) => tempo_event(event.delta, *micros),
        MidiItem::TimeSignature { numerator, denominator_power, clocks, thirty_seconds } => {
            time_signature_event(event.delta, *numerator, *denominator_power, *clocks, *thirty_seconds)
        },
        MidiItem::KeySignature { fifths, minor } => key_signature_event(event.delta, *fifths, *minor),
        MidiItem::Channel { channel, message } => channel_event(event.delta, *channel, *message),
        MidiItem::EndOfTrack => end_of_track_event(event.delta),
    }
}

/// Whether every event of every track of a score has a MIDI number.
pub open spec fn score_playable(score: ScoreIr) -> bool {
    forall|t: int| 0 <= t < score.tracks@.len() ==> playable(#[trigger] score.tracks@[t])
}

/// The tracks that a playable score is written as: its metadata track, then one note
/// track for each of its tracks.
pub open spec fn planned_tracks(score: ScoreIr) -> Seq<Seq<MidiEvent>> {
    seq![tempo_track(score)] + Seq::new(score.tracks@.len(), |t: int| note_track(score.tracks@[t]))
}

/// The score as the bytes of a standard MIDI file of the parallel format: the tracks of
/// `midi_plan`, encoded by `midly`. Fails with `Pitch` exactly when a pitch has no MIDI
/// number, and succeeds whenever the planned tracks are encodable.
pub fn render_midi(score: &ScoreIr) -> (r: Result<Vec<u8>, MidiError>)
    ensures
        (r matches Err(MidiError::Pitch(_))) <==> !score_playable(*score),
        score_playable(*score) && encodable(planned_tracks(*score)) ==> r is Ok,
        r matches Ok(bytes) ==> bytes@ == smf_bytes(
            SmfFormat::Parallel,
            (score.ticks_per_quarter % 65536) as u16,
            planned_tracks(*score),
        ),
        r matches Ok(bytes) ==> bytes@.len() >= 14 && bytes@.take(14) == smf_header(
            SmfFormat::Parallel,
            (score.ticks_per_quarter % 65536) as u16,
            score.tracks@.len() + 1,
        ),
        score_playable(*score) && score.tracks@.len() + 1 > 0xffff ==> r matches Err(
            MidiError::Encoding(_),
        ),
{
    let plan = match midi_plan(score) {
        Ok(plan) => plan,
        Err(e) => return Err(MidiError::Pitch(e)),
    };
    proof {
        let v = tracks_view(plan.tracks@);
        let w = planned_tracks(*score);
        assert(v.len() == w.len());
        assert forall|t: int| 0 <= t < v.len() implies v[t] == w[t] by {
            if t == 0 {
                assert(v[0] == plan.tracks@[0]@);
            } else {
                assert(v[t] == plan.tracks@[(t - 1) + 1]@);
            }
        }
        assert(v =~= w);
    }
    let ticks: u16 = (plan.ticks_per_quarter % 65536) as u16;
    match write_smf(SmfFormat::Parallel, ticks, &plan.tracks) {
        Ok(bytes) => Ok(bytes),
        Err(error) => Err(MidiError::Encoding(io_error_text(&error))),
    }
}

} // verus!
