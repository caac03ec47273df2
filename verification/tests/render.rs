use musiclang::ir::{KeySignature, NoteEventIr, ScoreIr, TrackIr};
use musiclang::music::{Pitch, PitchClass, DEFAULT_TICKS_PER_QUARTER};
use musiclang::render::render_musicxml;

fn score() -> ScoreIr {
    ScoreIr {
        title: "demo".to_string(),
        composer: Some("Ada Lovelace".to_string()),
        ticks_per_quarter: DEFAULT_TICKS_PER_QUARTER,
        tempo_bpm: 120,
        meter: None,
        key: Some(KeySignature {
            fifths: -1,
            is_minor: false,
        }),
        tracks: vec![TrackIr {
            name: "lead".to_string(),
            channel: 0,
            program: None,
            volume: None,
            pan: None,
            events: vec![NoteEventIr {
                pitch: Pitch::new(PitchClass::C, 4).unwrap(),
                start_tick: 0,
                duration_ticks: DEFAULT_TICKS_PER_QUARTER,
                velocity: 80,
                articulation: Some("staccato".to_string()),
                source_span: None,
            }],
        }],
        markers: Vec::new(),
        tempo_changes: Vec::new(),
        meter_changes: Vec::new(),
        key_changes: Vec::new(),
        overrides: Vec::new(),
    }
}

#[test]
fn renders_musicxml() {
    let xml = render_musicxml(&score());

    assert!(xml.contains("<score-partwise"));
    assert!(xml.contains("<part-name>lead</part-name>"));
    assert!(xml.contains("<creator type=\"composer\">Ada Lovelace</creator>"));
    assert!(xml.contains("<fifths>-1</fifths>"));
    assert!(xml.contains("<mode>major</mode>"));
    assert!(xml.contains("<staccato/>"));
}
