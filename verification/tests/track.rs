use musiclang::music::{Duration, Note, Pitch};
use musiclang::track::TrackBuilder;

#[test]
fn tuplet_time_scale_affects_note_duration_and_cursor() {
    let mut track = TrackBuilder::new("lead", None, None, None, None);
    let duration = Duration::new(1, 4).unwrap();
    let pitch = Pitch::from_midi_number(60).unwrap();
    let note = Note::new(pitch, duration);

    track.push_time_scale(3, 960);
    track.push_note(note, None);
    track.pop_time_scale();

    assert_eq!(track.events()[0].duration_ticks, 640);
    assert_eq!(track.cursor_tick(), 640);
}

#[test]
fn mark_rule_override_applies_to_new_events_only() {
    let mut track = TrackBuilder::new("lead", None, None, None, None);
    let duration = Duration::new(1, 4).unwrap();
    let note = Note::new(Pitch::from_midi_number(60).unwrap(), duration);
    track.push_note(note.clone(), None);
    let start_event = track.event_count();
    track.push_note(note, None);
    let start_tick = track.events()[1].start_tick;

    track.mark_rule_override(start_event, "scale");

    assert!(!track.is_event_overridden("scale", 0));
    assert!(track.is_event_overridden("scale", start_tick));
}

#[test]
fn midi_note_lands_at_the_cursor() {
    let mut track = TrackBuilder::new("drums", None, Some(9), None, None);
    let eighth = Duration::new(1, 8).unwrap();
    track.push_midi_note(36, eighth, None);
    track.push_midi_note(38, eighth, None);

    assert_eq!(track.events()[1].pitch, Pitch::from_midi_number(38).unwrap());
    assert_eq!(track.events()[1].start_tick, 240);
    assert_eq!(track.cursor_tick(), 480);
}
