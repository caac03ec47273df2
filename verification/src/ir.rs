use vstd::prelude::*;

use crate::diagnostic::Span;
use crate::music::Pitch;

verus! {

/// The lowered form of a score, ready for rendering.
#[derive(Debug, Clone, PartialEq, Eq)]
pub struct ScoreIr {
    pub title: String,
    pub composer: Option<String>,
    pub ticks_per_quarter: u32,
    pub tempo_bpm: u16,
    pub meter: Option<Meter>,
    pub key: Option<KeySignature>,
    pub tracks: Vec<TrackIr>,
    pub markers: Vec<MarkerIr>,
    pub tempo_changes: Vec<TempoChangeIr>,
    pub meter_changes: Vec<MeterChangeIr>,
    pub key_changes: Vec<KeyChangeIr>,
    pub overrides: Vec<OverrideTrace>,
}

/// A tempo change at a tick.
#[derive(Debug, Clone, PartialEq, Eq)]
pub struct TempoChangeIr {
    pub bpm: u16,
    pub tick: u32,
}

/// A meter change at a tick.
#[derive(Debug, Clone, PartialEq, Eq)]
pub struct MeterChangeIr {
    pub meter: Meter,
    pub tick: u32,
}

/// A key change at a tick.
#[derive(Debug, Clone, PartialEq, Eq)]
pub struct KeyChangeIr {
    pub key: KeySignature,
    pub tick: u32,
}

/// A labelled position, such as the start of a section.
#[derive(Debug, Clone, PartialEq, Eq)]
pub struct MarkerIr {
    pub label: String,
    pub tick: u32,
}

/// A key signature: sharps (positive) or flats (negative), and the mode.
#[derive(Debug, Clone, Copy, PartialEq, Eq, Structural)]
pub struct KeySignature {
    pub fifths: i8,
    pub is_minor: bool,
}

/// A time signature.
#[derive(Debug, Clone, Copy, PartialEq, Eq, Structural)]
pub struct Meter {
    pub numerator: u8,
    pub denominator: u8,
}

impl Default for Meter {
    fn default() -> (r: Meter)
        ensures
            r == (Meter { numerator: 4, denominator: 4 }),
    {
        Meter { numerator: 4, denominator: 4 }
    }
}

impl Meter {
    /// Whether two meters are the same.
    pub fn same(self, other: Meter) -> (r: bool)
        ensures
            r == (self == other),
    {
        self.numerator == other.numerator && self.denominator == other.denominator
    }
}

/// One track of the lowered score.
#[derive(Debug, Clone, PartialEq, Eq)]
pub struct TrackIr {
    pub name: String,
    pub channel: u8,
    pub program: Option<u8>,
    pub volume: Option<u8>,
    pub pan: Option<u8>,
    pub events: Vec<NoteEventIr>,
}

/// A sounding pitch in a track.
#[derive(Debug, Clone, PartialEq, Eq)]
pub struct NoteEventIr {
    pub pitch: Pitch,
    pub start_tick: u32,
    pub duration_ticks: u32,
    pub velocity: u8,
    pub articulation: Option<String>,
    pub source_span: Option<Span>,
}

/// A record that a style rule was suppressed, and why.
#[derive(Debug, Clone, PartialEq, Eq)]
pub struct OverrideTrace {
    pub rule: String,
    pub reason: Option<String>,
    pub line: usize,
    pub column: usize,
}

} // verus!
