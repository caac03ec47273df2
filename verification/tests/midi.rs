use musiclang::ir::{KeySignature, Meter, NoteEventIr, ScoreIr, TrackIr};
use midly::{MetaMessage, MidiMessage, Smf, Timing, TrackEventKind};
use musiclang::midi::{
    articulated_duration, articulated_velocity, midi_plan, render_midi, ChannelMessage, MidiItem,
};
use musiclang::music::{Pitch, PitchClass, DEFAULT_TICKS_PER_QUARTER};

fn score() -> ScoreIr {
    ScoreIr {
        title: "demo".to_string(),
        composer: Some("Ada Lovelace".to_string()),
        ticks_per_quarter: DEFAULT_TICKS_PER_QUARTER,
        tempo_bpm: 90,
        meter: Some(Meter {
            numerator: 3,
            denominator: 4,
        }),
        key: Some(KeySignature {
            fifths: -1,
            is_minor: false,
        }),
        tracks: vec![TrackIr {
            name: "lead".to_string(),
            channel: 2,
            program: Some(40),
            volume: None,
            pan: None,
            events: vec![NoteEventIr {
                pitch: Pitch::new(PitchClass::C, 4).unwrap(),
                start_tick: 0,
                duration_ticks: DEFAULT_TICKS_PER_QUARTER,
                velocity: 80,
                articulation: Some("accent".to_string()),
                source_span: None,
            }],
        }],
        markers: Vec::new(),
        tempo_changes: Vec::new(),
        meter_changes: Vec::new(),
        key_changes: Vec::new(),
        overrides: Vec::new(),
    }
}

#[test]
fn plans_metadata_track() {
    let plan = midi_plan(&score()).unwrap();
    let items: Vec<&MidiItem> = plan.tracks[0].iter().map(|e| &e.item).collect();

    assert_eq!(plan.ticks_per_quarter, 480);
    assert_eq!(items[0], &MidiItem::TrackName("demo".to_string()));
    assert_eq!(items[1], &MidiItem::Text("Ada Lovelace".to_string()));
    assert_eq!(items[2], &MidiItem::Tempo(666_666));
    assert_eq!(
        items[3],
        &MidiItem::TimeSignature {
            numerator: 3,
            denominator_power: 2,
            clocks: 24,
            thirty_seconds: 8
        }
    );
    assert_eq!(items[4], &MidiItem::KeySignature { fifths: -1, minor: false });
    assert_eq!(items[5], &MidiItem::EndOfTrack);
}

#[test]
fn plans_note_track_with_accent() {
    let plan = midi_plan(&score()).unwrap();
    let track = &plan.tracks[1];

    assert_eq!(track[0].item, MidiItem::TrackName("lead".to_string()));
    assert!(track.iter().any(|e| e.item
        == MidiItem::Channel {
            channel: 2,
            message: ChannelMessage::ProgramChange { program: 40 }
        }));
    assert!(track.iter().any(|e| e.item
        == MidiItem::Channel {
            channel: 2,
            message: ChannelMessage::NoteOn { key: 60, velocity: 96 }
        }));
    let off = track
        .iter()
        .position(|e| matches!(e.item, MidiItem::Channel { message: ChannelMessage::NoteOff { .. }, .. }))
        .unwrap();
    assert_eq!(track[off].delta, 480);
    assert_eq!(track.last().unwrap().item, MidiItem::EndOfTrack);
}

#[test]
fn note_offs_come_before_note_ons_at_the_same_tick() {
    let mut s = score();
    s.tracks[0].program = None;
    s.tracks[0].events.push(NoteEventIr {
        pitch: Pitch::new(PitchClass::D, 4).unwrap(),
        start_tick: DEFAULT_TICKS_PER_QUARTER,
        duration_ticks: DEFAULT_TICKS_PER_QUARTER,
        velocity: 80,
        articulation: None,
        source_span: None,
    });
    let plan = midi_plan(&s).unwrap();
    let messages: Vec<ChannelMessage> = plan.tracks[1]
        .iter()
        .filter_map(|e| match e.item {
            MidiItem::Channel { message, .. } => Some(message),
            _ => None,
        })
        .collect();

    assert_eq!(
        messages,
        vec![
            ChannelMessage::NoteOn { key: 60, velocity: 96 },
            ChannelMessage::NoteOff { key: 60, velocity: 0 },
            ChannelMessage::NoteOn { key: 62, velocity: 80 },
            ChannelMessage::NoteOff { key: 62, velocity: 0 },
        ]
    );
}

#[test]
fn articulation_changes_velocity_and_length() {
    assert_eq!(articulated_velocity(120, Some("accent")), 127);
    assert_eq!(articulated_velocity(80, Some("accent")), 96);
    assert_eq!(articulated_velocity(80, None), 80);
    assert_eq!(articulated_duration(480, Some("staccato")), 240);
    assert_eq!(articulated_duration(1, Some("staccato")), 1);
    assert_eq!(articulated_duration(480, Some("tenuto")), 480);
}

#[test]
fn renders_midi_bytes() {
    let score = score();
    let bytes = render_midi(&score).unwrap();
    let smf = Smf::parse(&bytes).unwrap();

    assert!(bytes.starts_with(b"MThd"));
    assert!(matches!(
        smf.header.timing,
        Timing::Metrical(ticks) if ticks.as_int() == DEFAULT_TICKS_PER_QUARTER as u16
    ));
    assert!(smf.tracks[0].iter().any(|event| matches!(
        event.kind,
        TrackEventKind::Meta(MetaMessage::TrackName(b"demo"))
    )));
    assert!(smf.tracks[0].iter().any(|event| matches!(
        event.kind,
        TrackEventKind::Meta(MetaMessage::Text(b"Ada Lovelace"))
    )));
    assert!(smf.tracks[0].iter().any(|event| matches!(
        event.kind,
        TrackEventKind::Meta(MetaMessage::Tempo(value)) if value.as_int() == 666_666
    )));
    assert!(smf.tracks[0].iter().any(|event| matches!(
        event.kind,
        TrackEventKind::Meta(MetaMessage::TimeSignature(3, 2, 24, 8))
    )));
    assert!(smf.tracks[0].iter().any(|event| matches!(
        event.kind,
        TrackEventKind::Meta(MetaMessage::KeySignature(-1, false))
    )));
    assert!(matches!(
        smf.tracks[1][0].kind,
        TrackEventKind::Meta(MetaMessage::TrackName(b"lead"))
    ));
    assert!(smf.tracks[1].iter().any(|event| matches!(
        event.kind,
        TrackEventKind::Midi {
            channel,
            message: MidiMessage::ProgramChange { program },
        } if channel.as_int() == 2 && program.as_int() == 40
    )));
    assert!(smf.tracks[1].iter().any(|event| matches!(
        event.kind,
        TrackEventKind::Midi {
            channel,
            message: MidiMessage::NoteOn { vel, .. },
        } if channel.as_int() == 2 && vel.as_int() == 96
    )));
}

#[test]
fn midi_file_header_counts_tracks_and_ticks() {
    let bytes = render_midi(&score()).unwrap();
    assert_eq!(
        &bytes[..14],
        &[0x4d, 0x54, 0x68, 0x64, 0, 0, 0, 6, 0, 1, 0, 2, 0x01, 0xe0]
    );
    let smf = Smf::parse(&bytes).unwrap();
    assert_eq!(smf.tracks.len(), 2);
}

#[test]
fn midi_note_off_ends_at_articulated_duration() {
    let mut score = score();
    score.tracks[0].events[0].articulation = Some("staccato".to_string());
    let bytes = render_midi(&score).unwrap();
    let smf = Smf::parse(&bytes).unwrap();
    let mut tick = 0u32;
    let mut off_tick = None;
    for event in &smf.tracks[1] {
        tick += event.delta.as_int();
        if let TrackEventKind::Midi { message: MidiMessage::NoteOff { .. }, .. } = event.kind {
            off_tick = Some(tick);
        }
    }
    assert_eq!(off_tick, Some(DEFAULT_TICKS_PER_QUARTER / 2));
}

#[test]
fn note_off_comes_before_note_on_at_the_same_tick() {
    let mut score = score();
    let first = score.tracks[0].events[0].clone();
    let mut second = first.clone();
    second.start_tick = first.start_tick + first.duration_ticks;
    second.articulation = None;
    score.tracks[0].events.push(second);
    let plan = midi_plan(&score).unwrap();
    let items: Vec<&MidiItem> = plan.tracks[1].iter().map(|e| &e.item).collect();
    let deltas: Vec<u32> = plan.tracks[1].iter().map(|e| e.delta).collect();
    assert_eq!(items.len(), 7);
    assert!(matches!(items[1], MidiItem::Channel { message: ChannelMessage::ProgramChange { program: 40 }, .. }));
    assert!(matches!(items[2], MidiItem::Channel { message: ChannelMessage::NoteOn { velocity: 96, .. }, .. }));
    assert!(matches!(items[3], MidiItem::Channel { message: ChannelMessage::NoteOff { .. }, .. }));
    assert!(matches!(items[4], MidiItem::Channel { message: ChannelMessage::NoteOn { velocity: 80, .. }, .. }));
    assert!(matches!(items[5], MidiItem::Channel { message: ChannelMessage::NoteOff { .. }, .. }));
    assert_eq!(deltas, vec![0, 0, 0, 480, 0, 480, 0]);
}

#[test]
fn volume_and_pan_become_controllers_seven_and_ten() {
    let mut score = score();
    score.tracks[0].volume = Some(100);
    score.tracks[0].pan = Some(200);
    let plan = midi_plan(&score).unwrap();
    let items: Vec<&MidiItem> = plan.tracks[1].iter().map(|e| &e.item).collect();
    assert!(matches!(items[1], MidiItem::Channel { message: ChannelMessage::ProgramChange { program: 40 }, .. }));
    assert!(matches!(
        items[2],
        MidiItem::Channel { message: ChannelMessage::Controller { controller: 7, value: 100 }, .. }
    ));
    assert!(matches!(
        items[3],
        MidiItem::Channel { message: ChannelMessage::Controller { controller: 10, value: 127 }, .. }
    ));

    let bytes = render_midi(&score).unwrap();
    let smf = Smf::parse(&bytes).unwrap();
    let controllers: Vec<(u8, u8)> = smf.tracks[1]
        .iter()
        .filter_map(|event| match event.kind {
            TrackEventKind::Midi { message: MidiMessage::Controller { controller, value }, .. } => {
                Some((controller.as_int(), value.as_int()))
            }
            _ => None,
        })
        .collect();
    assert_eq!(controllers, vec![(7, 100), (10, 127)]);
}

#[test]
fn rendering_the_same_score_twice_gives_the_same_bytes() {
    let first = render_midi(&score()).unwrap();
    let second = render_midi(&score()).unwrap();
    assert_eq!(first, second);
    assert_eq!(&first[0..4], b"MThd");
    assert!(first.len() > 14);
}
