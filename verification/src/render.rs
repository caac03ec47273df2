use vstd::prelude::*;

use crate::ir::{NoteEventIr, ScoreIr, TrackIr};
use crate::music::PitchClass;
use crate::text::{append, decimal, i64_text, int_text, push_char, str_eq, u64_text};

verus! {

/// The XML text of one character: the five markup characters become entities.
pub open spec fn escape_char(c: char) -> Seq<char> {
    if c == '&' {
        "&amp;"@
    } else if c == '<' {
        "&lt;"@
    } else if c == '>' {
        "&gt;"@
    } else if c == '"' {
        "&quot;"@
    } else if c == '\'' {
        "&apos;"@
    } else {
        seq![c]
    }
}

/// A text with every markup character replaced by its entity.
pub open spec fn escaped(s: Seq<char>) -> Seq<char>
    decreases s.len(),
{
    if s.len() == 0 {
        Seq::empty()
    } else {
        escaped(s.drop_last()) + escape_char(s.last())
    }
}

/// Escapes the markup characters of a text for XML.
pub fn escape_xml(value: &str) -> (r: String)
    ensures
        r@ == escaped(value@),
{
    let chars = crate::text::chars_of(value);
    let mut out = String::new();
    let mut i: usize = 0;
    while i < chars.len()
        invariant
            i <= chars@.len(),
            chars@ == value@,
            out@ == escaped(chars@.take(i as int)),
        decreases chars@.len() - i,
    {
        let c = chars[i];
        assert(chars@.take(i + 1).drop_last() =~= chars@.take(i as int));
        if c == '&' {
            append(&mut out, "&amp;");
        } else if c == '<' {
            append(&mut out, "&lt;");
        } else if c == '>' {
            append(&mut out, "&gt;");
        } else if c == '"' {
            append(&mut out, "&quot;");
        } else if c == '\'' {
            append(&mut out, "&apos;");
        } else {
            push_char(&mut out, c);
        }
        i = i + 1;
    }
    assert(chars@.take(i as int) =~= value@);
    out
}

/// The letter that MusicXML writes for a pitch class; sharps share their natural's letter.
pub open spec fn step_of(class: PitchClass) -> Seq<char> {
    match class {
        PitchClass::C | PitchClass::Cs => "C"@,
        PitchClass::D | PitchClass::Ds => "D"@,
        PitchClass::E => "E"@,
        PitchClass::F | PitchClass::Fs => "F"@,
        PitchClass::G | PitchClass::Gs => "G"@,
        PitchClass::A | PitchClass::As => "A"@,
        PitchClass::B => "B"@,
    }
}

pub fn pitch_step(class: PitchClass) -> (r: &'static str)
    ensures
        r@ == step_of(class),
{
    match class {
        PitchClass::C | PitchClass::Cs => "C",
        PitchClass::D | PitchClass::Ds => "D",
        PitchClass::E => "E",
        PitchClass::F | PitchClass::Fs => "F",
        PitchClass::G | PitchClass::Gs => "G",
        PitchClass::A | PitchClass::As => "A",
        PitchClass::B => "B",
    }
}

/// The chromatic alteration of a pitch class: one for the sharps.
pub open spec fn alter_of(class: PitchClass) -> Option<i8> {
    match class {
        PitchClass::Cs | PitchClass::Ds | PitchClass::Fs | PitchClass::Gs | PitchClass::As => Some(
            1,
        ),
        _ => None,
    }
}

/// The semitone of a note letter, C to B.
pub open spec fn letter_semitone(step: Seq<char>) -> int {
    if step == seq!['C'] {
        0
    } else if step == seq!['D'] {
        2
    } else if step == seq!['E'] {
        4
    } else if step == seq!['F'] {
        5
    } else if step == seq!['G'] {
        7
    } else if step == seq!['A'] {
        9
    } else {
        11
    }
}

/// A MusicXML spelling spells its class: the step is a letter, and the letter's semitone
/// raised by the alter (none when there is no alter) is the class's semitone.
pub proof fn lemma_spelling_spells_the_class(class: PitchClass)
    ensures
        step_of(class).len() == 1 && 'A' <= step_of(class)[0] <= 'G',
        letter_semitone(step_of(class)) + match alter_of(class) {
            Some(a) => a as int,
            None => 0,
        } == crate::music::semitone_of(class),
{
    reveal_strlit("C");
    reveal_strlit("D");
    reveal_strlit("E");
    reveal_strlit("F");
    reveal_strlit("G");
    reveal_strlit("A");
    reveal_strlit("B");
    assert("C"@ =~= seq!['C']);
    assert("D"@ =~= seq!['D']);
    assert("E"@ =~= seq!['E']);
    assert("F"@ =~= seq!['F']);
    assert("G"@ =~= seq!['G']);
    assert("A"@ =~= seq!['A']);
    assert("B"@ =~= seq!['B']);
}

pub fn pitch_alter(class: PitchClass) -> (r: Option<i8>)
    ensures
        r == alter_of(class),
{
    match class {
        PitchClass::Cs | PitchClass::Ds | PitchClass::Fs | PitchClass::Gs | PitchClass::As => Some(
            1,
        ),
        _ => None,
    }
}

/// The MusicXML element for an articulation, for the four that MusicXML knows.
pub open spec fn articulation_element(a: Seq<char>) -> Option<Seq<char>> {
    if a == "staccato"@ {
        Some("staccato"@)
    } else if a == "tenuto"@ {
        Some("tenuto"@)
    } else if a == "accent"@ {
        Some("accent"@)
    } else if a == "legato"@ {
        Some("legato"@)
    } else {
        None
    }
}

pub fn musicxml_articulation(articulation: &str) -> (r: Option<&'static str>)
    ensures
        match r {
            Some(s) => articulation_element(articulation@) == Some(s@),
            None => articulation_element(articulation@) is None,
        },
{
    if str_eq(articulation, "staccato") {
        Some("staccato")
    } else if str_eq(articulation, "tenuto") {
        Some("tenuto")
    } else if str_eq(articulation, "accent") {
        Some("accent")
    } else if str_eq(articulation, "legato") {
        Some("legato")
    } else {
        None
    }
}

/// The `<alter>` element of a pitch class, for the sharps.
pub open spec fn alter_xml(class: PitchClass) -> Seq<char> {
    match alter_of(class) {
        Some(a) => "          <alter>"@ + int_text(a as int) + "</alter>\n"@,
        None => Seq::empty(),
    }
}

/// The `<notations>` element of an articulation that MusicXML knows.
pub open spec fn articulation_xml(articulation: Option<String>) -> Seq<char> {
    match articulation {
        Some(a) => match articulation_element(a@) {
            Some(el) => "        <notations><articulations>"@ + "<"@ + el + "/>"@
                + "</articulations></notations>\n"@,
            None => Seq::empty(),
        },
        None => Seq::empty(),
    }
}

/// The `<note>` element of an event.
pub open spec fn note_xml(e: NoteEventIr) -> Seq<char> {
    let class = e.pitch.class_spec();
    let alter = alter_xml(class);
    let articulation = articulation_xml(e.articulation);
    "      <note>\n"@ + "        <pitch>\n"@ + "          <step>"@ + step_of(class) + "</step>\n"@
        + alter + "          <octave>"@ + int_text(e.pitch.octave_spec() as int) + "</octave>\n"@
        + "        </pitch>\n"@ + "        <duration>"@ + decimal(e.duration_ticks as nat)
        + "</duration>\n"@ + articulation + "      </note>\n"@
}

/// The `<note>` elements of a list of events, in order.
pub open spec fn notes_xml(events: Seq<NoteEventIr>) -> Seq<char>
    decreases events.len(),
{
    if events.len() == 0 {
        Seq::empty()
    } else {
        notes_xml(events.drop_last()) + note_xml(events.last())
    }
}

/// The `<time>` element of a meter, where there is one.
pub open spec fn time_xml(meter: Option<crate::ir::Meter>) -> Seq<char> {
    match meter {
        Some(m) => "        <time>\n"@ + "          <beats>"@ + decimal(m.numerator as nat)
            + "</beats>\n"@ + "          <beat-type>"@ + decimal(m.denominator as nat)
            + "</beat-type>\n"@ + "        </time>\n"@,
        None => Seq::empty(),
    }
}

/// The `<key>` element of a key signature, where there is one.
pub open spec fn key_xml(key: Option<crate::ir::KeySignature>) -> Seq<char> {
    match key {
        Some(k) => if k.is_minor {
            "        <key>\n"@ + "          <fifths>"@ + int_text(k.fifths as int) + "</fifths>\n"@
                + "          <mode>"@ + "minor"@ + "</mode>\n"@ + "        </key>\n"@
        } else {
            "        <key>\n"@ + "          <fifths>"@ + int_text(k.fifths as int) + "</fifths>\n"@
                + "          <mode>"@ + "major"@ + "</mode>\n"@ + "        </key>\n"@
        },
        None => Seq::empty(),
    }
}

/// The `<attributes>` of every part: the divisions, then the meter and key where known.
pub open spec fn attributes_xml(score: ScoreIr) -> Seq<char> {
    "      <attributes>\n"@ + "        <divisions>"@ + decimal(score.ticks_per_quarter as nat)
        + "</divisions>\n"@ + time_xml(score.meter) + key_xml(score.key) + "      </attributes>\n"@
}

/// The `<part>` element of the track at `index`.
pub open spec fn part_xml(score: ScoreIr, index: nat, track: TrackIr) -> Seq<char> {
    "  <part id=\"P"@ + decimal(index + 1) + "\">\n"@ + "    <measure number=\"1\">\n"@
        + attributes_xml(score) + "      <direction><sound tempo=\""@ + decimal(
        score.tempo_bpm as nat,
    ) + "\"/></direction>\n"@ + notes_xml(track.events@) + "    </measure>\n"@ + "  </part>\n"@
}

/// The `<score-part>` entry of the part list for the track at `index`.
pub open spec fn score_part_xml(index: nat, track: TrackIr) -> Seq<char> {
    "    <score-part id=\"P"@ + decimal(index + 1) + "\"><part-name>"@ + escaped(track.name@)
        + "</part-name></score-part>\n"@
}

/// The part-list entries of the first `n` tracks.
pub open spec fn part_list_xml(tracks: Seq<TrackIr>, n: nat) -> Seq<char>
    decreases n,
{
    if n == 0 {
        Seq::empty()
    } else {
        part_list_xml(tracks, (n - 1) as nat) + score_part_xml((n - 1) as nat, tracks[n - 1])
    }
}

/// The parts of the first `n` tracks.
pub open spec fn parts_xml(score: ScoreIr, n: nat) -> Seq<char>
    decreases n,
{
    if n == 0 {
        Seq::empty()
    } else {
        parts_xml(score, (n - 1) as nat) + part_xml(score, (n - 1) as nat, score.tracks@[n - 1])
    }
}

/// The XML declaration, document type and root element that every document opens with.
pub open spec fn musicxml_prologue() -> Seq<char> {
    "<?xml version=\"1.0\" encoding=\"UTF-8\"?>\n"@
        + "<!DOCTYPE score-partwise PUBLIC \"-//Recordare//DTD MusicXML 4.0 Partwise//EN\" \"http://www.musicxml.org/dtds/partwise.dtd\">\n"@
        + "<score-partwise version=\"4.0\">\n"@
}

/// The `<identification>` element naming the composer, where there is one.
pub open spec fn composer_xml(composer: Option<String>) -> Seq<char> {
    match composer {
        Some(c) => "  <identification><creator type=\"composer\">"@ + escaped(c@)
            + "</creator></identification>\n"@,
        None => Seq::empty(),
    }
}

/// The whole MusicXML document of a score.
pub open spec fn musicxml_of(score: ScoreIr) -> Seq<char> {
    let composer = composer_xml(score.composer);
    musicxml_prologue() + "  <work><work-title>"@ + escaped(score.title@) + "</work-title></work>\n"@
        + composer + "  <part-list>\n"@ + part_list_xml(score.tracks@, score.tracks@.len())
        + "  </part-list>\n"@ + parts_xml(score, score.tracks@.len()) + "</score-partwise>\n"@
}

fn push_int(out: &mut String, n: i8)
    ensures
        final(out)@ == old(out)@ + int_text(n as int),
{
    let t = i64_text(n as i64);
    append(out, t.as_str());
}

fn push_nat(out: &mut String, n: u64)
    ensures
        final(out)@ == old(out)@ + decimal(n as nat),
{
    let t = u64_text(n);
    append(out, t.as_str());
}

#[verifier::spinoff_prover]
fn push_note(out: &mut String, event: &NoteEventIr)
    ensures
        final(out)@ == old(out)@ + note_xml(*event),
{
    let ghost start = out@;
    let class = event.pitch.class();
    append(out, "      <note>\n");
    let ghost acc = "      <note>\n"@;
    append(out, "        <pitch>\n");
    proof { acc = acc + "        <pitch>\n"@; assert(out@ =~= start + acc); }
    append(out, "          <step>");
    proof { acc = acc + "          <step>"@; assert(out@ =~= start + acc); }
    append(out, pitch_step(class));
    proof { acc = acc + step_of(class); assert(out@ =~= start + acc); }
    append(out, "</step>\n");
    proof { acc = acc + "</step>\n"@; assert(out@ =~= start + acc); }
    let ghost before_alter = out@;
    match pitch_alter(class) {
        Some(alter) => {
            append(out, "          <alter>");
            push_int(out, alter);
            append(out, "</alter>\n");
        },
        None => {},
    }
    proof {
        assert(out@ =~= before_alter + alter_xml(class));
        acc = acc + alter_xml(class);
        assert(out@ =~= start + acc);
    }
    append(out, "          <octave>");
    proof { acc = acc + "          <octave>"@; assert(out@ =~= start + acc); }
    push_int(out, event.pitch.octave());
    proof { acc = acc + int_text(event.pitch.octave_spec() as int); assert(out@ =~= start + acc); }
    append(out, "</octave>\n");
    proof { acc = acc + "</octave>\n"@; assert(out@ =~= start + acc); }
    append(out, "        </pitch>\n");
    proof { acc = acc + "        </pitch>\n"@; assert(out@ =~= start + acc); }
    append(out, "        <duration>");
    proof { acc = acc + "        <duration>"@; assert(out@ =~= start + acc); }
    push_nat(out, event.duration_ticks as u64);
    proof { acc = acc + decimal(event.duration_ticks as nat); assert(out@ =~= start + acc); }
    append(out, "</duration>\n");
    proof { acc = acc + "</duration>\n"@; assert(out@ =~= start + acc); }
    let ghost before_art = out@;
    match &event.articulation {
        Some(a) => match musicxml_articulation(a.as_str()) {
            Some(el) => {
                append(out, "        <notations><articulations>");
                append(out, "<");
                append(out, el);
                append(out, "/>");
                append(out, "</articulations></notations>\n");
            },
            None => {},
        },
        None => {},
    }
    proof {
        assert(out@ =~= before_art + articulation_xml(event.articulation));
        acc = acc + articulation_xml(event.articulation);
        assert(out@ =~= start + acc);
    }
    append(out, "      </note>\n");
    proof {
        acc = acc + "      </note>\n"@;
        assert(out@ =~= start + acc);
        assert(acc == note_xml(*event));
    }
}

fn push_time(out: &mut String, meter: Option<crate::ir::Meter>)
    ensures
        final(out)@ == old(out)@ + time_xml(meter),
{
    let ghost before_time = out@;
    match meter {
        Some(m) => {
            append(out, "        <time>\n");
            let ghost t = "        <time>\n"@;
            append(out, "          <beats>");
            proof { t = t + "          <beats>"@; assert(out@ =~= before_time + t); }
            push_nat(out, m.numerator as u64);
            proof { t = t + decimal(m.numerator as nat); assert(out@ =~= before_time + t); }
            append(out, "</beats>\n");
            proof { t = t + "</beats>\n"@; assert(out@ =~= before_time + t); }
            append(out, "          <beat-type>");
            proof { t = t + "          <beat-type>"@; assert(out@ =~= before_time + t); }
            push_nat(out, m.denominator as u64);
            proof { t = t + decimal(m.denominator as nat); assert(out@ =~= before_time + t); }
            append(out, "</beat-type>\n");
            proof { t = t + "</beat-type>\n"@; assert(out@ =~= before_time + t); }
            append(out, "        </time>\n");
            proof { t = t + "        </time>\n"@; assert(out@ =~= before_time + t); assert(t == time_xml(meter)); }
        },
        None => {},
    }
}

fn push_key(out: &mut String, key: Option<crate::ir::KeySignature>)
    ensures
        final(out)@ == old(out)@ + key_xml(key),
{
    let ghost before_key = out@;
    match key {
        Some(k) => {
            append(out, "        <key>\n");
            let ghost t = "        <key>\n"@;
            append(out, "          <fifths>");
            proof { t = t + "          <fifths>"@; assert(out@ =~= before_key + t); }
            push_int(out, k.fifths);
            proof { t = t + int_text(k.fifths as int); assert(out@ =~= before_key + t); }
            append(out, "</fifths>\n");
            proof { t = t + "</fifths>\n"@; assert(out@ =~= before_key + t); }
            append(out, "          <mode>");
            proof { t = t + "          <mode>"@; assert(out@ =~= before_key + t); }
            if k.is_minor {
                append(out, "minor");
                proof { t = t + "minor"@; assert(out@ =~= before_key + t); }
            } else {
                append(out, "major");
                proof { t = t + "major"@; assert(out@ =~= before_key + t); }
            }
            append(out, "</mode>\n");
            proof { t = t + "</mode>\n"@; assert(out@ =~= before_key + t); }
            append(out, "        </key>\n");
            proof { t = t + "        </key>\n"@; assert(out@ =~= before_key + t); assert(t == key_xml(key)); }
        },
        None => {},
    }
}

fn push_attributes(out: &mut String, score: &ScoreIr)
    ensures
        final(out)@ == old(out)@ + attributes_xml(*score),
{
    let ghost start = out@;
    append(out, "      <attributes>\n");
    let ghost acc = "      <attributes>\n"@;
    append(out, "        <divisions>");
    proof { acc = acc + "        <divisions>"@; assert(out@ =~= start + acc); }
    push_nat(out, score.ticks_per_quarter as u64);
    proof { acc = acc + decimal(score.ticks_per_quarter as nat); assert(out@ =~= start + acc); }
    append(out, "</divisions>\n");
    proof { acc = acc + "</divisions>\n"@; assert(out@ =~= start + acc); }
    push_time(out, score.meter);
    proof { acc = acc + time_xml(score.meter); assert(out@ =~= start + acc); }
    push_key(out, score.key);
    proof { acc = acc + key_xml(score.key); assert(out@ =~= start + acc); }
    append(out, "      </attributes>\n");
    proof {
        acc = acc + "      </attributes>\n"@;
        assert(out@ =~= start + acc);
        assert(acc == attributes_xml(*score));
    }
}

fn push_notes(out: &mut String, events: &Vec<NoteEventIr>)
    ensures
        final(out)@ == old(out)@ + notes_xml(events@),
{
    let ghost before_notes = out@;
    let mut i: usize = 0;
    while i < events.len()
        invariant
            i <= events@.len(),
            out@ == before_notes + notes_xml(events@.take(i as int)),
        decreases events@.len() - i,
    {
        assert(events@.take(i + 1).drop_last() =~= events@.take(i as int));
        push_note(out, &events[i]);
        i = i + 1;
    }
    assert(events@.take(i as int) =~= events@);
}

fn push_part(out: &mut String, score: &ScoreIr, index: usize, track: &TrackIr)
    requires
        index < usize::MAX,
    ensures
        final(out)@ == old(out)@ + part_xml(*score, index as nat, *track),
{
    let ghost start = out@;
    append(out, "  <part id=\"P");
    let ghost acc = "  <part id=\"P"@;
    push_nat(out, (index + 1) as u64);
    proof { acc = acc + decimal(index as nat + 1); assert(out@ =~= start + acc); }
    append(out, "\">\n");
    proof { acc = acc + "\">\n"@; assert(out@ =~= start + acc); }
    append(out, "    <measure number=\"1\">\n");
    proof { acc = acc + "    <measure number=\"1\">\n"@; assert(out@ =~= start + acc); }
    push_attributes(out, score);
    proof { acc = acc + attributes_xml(*score); assert(out@ =~= start + acc); }
    append(out, "      <direction><sound tempo=\"");
    proof { acc = acc + "      <direction><sound tempo=\""@; assert(out@ =~= start + acc); }
    push_nat(out, score.tempo_bpm as u64);
    proof { acc = acc + decimal(score.tempo_bpm as nat); assert(out@ =~= start + acc); }
    append(out, "\"/></direction>\n");
    proof { acc = acc + "\"/></direction>\n"@; assert(out@ =~= start + acc); }
    push_notes(out, &track.events);
    proof { acc = acc + notes_xml(track.events@); assert(out@ =~= start + acc); }
    append(out, "    </measure>\n");
    proof { acc = acc + "    </measure>\n"@; assert(out@ =~= start + acc); }
    append(out, "  </part>\n");
    proof {
        acc = acc + "  </part>\n"@;
        assert(out@ =~= start + acc);
        assert(acc == part_xml(*score, index as nat, *track));
    }
}

/// The MusicXML document of a score: one part per track, every note in a single measure.
pub fn render_musicxml(score: &ScoreIr) -> (r: String)
    ensures
        r@ == musicxml_of(*score),
{
    let mut out = String::new();
    append(&mut out, "<?xml version=\"1.0\" encoding=\"UTF-8\"?>\n");
    append(
        &mut out,
        "<!DOCTYPE score-partwise PUBLIC \"-//Recordare//DTD MusicXML 4.0 Partwise//EN\" \"http://www.musicxml.org/dtds/partwise.dtd\">\n",
    );
    append(&mut out, "<score-partwise version=\"4.0\">\n");
    let ghost acc = musicxml_prologue();
    assert(out@ =~= acc);
    append(&mut out, "  <work><work-title>");
    proof { acc = acc + "  <work><work-title>"@; assert(out@ =~= acc); }
    append(&mut out, escape_xml(score.title.as_str()).as_str());
    proof { acc = acc + escaped(score.title@); assert(out@ =~= acc); }
    append(&mut out, "</work-title></work>\n");
    proof { acc = acc + "</work-title></work>\n"@; assert(out@ =~= acc); }
    let ghost before_composer = out@;
    match &score.composer {
        Some(c) => {
            append(&mut out, "  <identification><creator type=\"composer\">");
            append(&mut out, escape_xml(c.as_str()).as_str());
            append(&mut out, "</creator></identification>\n");
        },
        None => {},
    }
    proof {
        assert(out@ =~= before_composer + composer_xml(score.composer));
        acc = acc + composer_xml(score.composer);
        assert(out@ =~= acc);
    }
    append(&mut out, "  <part-list>\n");
    proof { acc = acc + "  <part-list>\n"@; assert(out@ =~= acc); }
    let ghost before_list = out@;
    let n = score.tracks.len();
    let mut i: usize = 0;
    while i < n
        invariant
            n == score.tracks@.len(),
            i <= n,
            out@ == before_list + part_list_xml(score.tracks@, i as nat),
        decreases n - i,
    {
        let track = &score.tracks[i];
        let ghost entry_start = out@;
        append(&mut out, "    <score-part id=\"P");
        push_nat(&mut out, (i + 1) as u64);
        append(&mut out, "\"><part-name>");
        append(&mut out, escape_xml(track.name.as_str()).as_str());
        append(&mut out, "</part-name></score-part>\n");
        assert(out@ =~= entry_start + score_part_xml(i as nat, score.tracks@[i as int]));
        assert(out@ =~= before_list + part_list_xml(score.tracks@, (i + 1) as nat));
        i = i + 1;
    }
    proof { acc = acc + part_list_xml(score.tracks@, score.tracks@.len()); assert(out@ =~= acc); }
    append(&mut out, "  </part-list>\n");
    proof { acc = acc + "  </part-list>\n"@; assert(out@ =~= acc); }
    let ghost before_parts = out@;
    let mut i: usize = 0;
    while i < n
        invariant
            n == score.tracks@.len(),
            i <= n,
            out@ == before_parts + parts_xml(*score, i as nat),
        decreases n - i,
    {
        push_part(&mut out, score, i, &score.tracks[i]);
        assert(out@ =~= before_parts + parts_xml(*score, (i + 1) as nat));
        i = i + 1;
    }
    proof { acc = acc + parts_xml(*score, score.tracks@.len()); assert(out@ =~= acc); }
    append(&mut out, "</score-partwise>\n");
    proof {
        acc = acc + "</score-partwise>\n"@;
        assert(out@ =~= acc);
        assert(acc == musicxml_of(*score));
    }
    out
}

} // verus!
