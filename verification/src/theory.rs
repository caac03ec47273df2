use vstd::prelude::*;

use crate::music::CoreError;
use crate::text::{owned, str_eq};

verus! {

/// One entry of the theory catalog: an id, a name, a description and a pattern.
#[derive(Debug, Clone, PartialEq, Eq)]
pub struct TheoryEntry {
    pub id: &'static str,
    pub name: &'static str,
    pub description: &'static str,
    pub pattern: Vec<&'static str>,
}

/// The domains of the theory catalog.
#[derive(Debug, Clone, Copy, PartialEq, Eq, Structural, Hash)]
pub enum TheoryDomain {
    Intervals,
    Scales,
    Modes,
    ChordQualities,
    Cadences,
    Meters,
    Rhythms,
    Dynamics,
    Forms,
    Textures,
    Ornaments,
    ContrapuntalMotions,
    NonChordTones,
    HarmonicFunctions,
    SetClasses,
    TuningSystems,
    WorldTraditions,
    StyleEras,
}

/// The music-theory catalog, one list of entries per domain.
#[derive(Debug, Clone, PartialEq, Eq)]
pub struct TheoryCatalog {
    pub intervals: Vec<TheoryEntry>,
    pub scales: Vec<TheoryEntry>,
    pub modes: Vec<TheoryEntry>,
    pub chord_qualities: Vec<TheoryEntry>,
    pub cadences: Vec<TheoryEntry>,
    pub meters: Vec<TheoryEntry>,
    pub rhythms: Vec<TheoryEntry>,
    pub dynamics: Vec<TheoryEntry>,
    pub forms: Vec<TheoryEntry>,
    pub textures: Vec<TheoryEntry>,
    pub ornaments: Vec<TheoryEntry>,
    pub contrapuntal_motions: Vec<TheoryEntry>,
    pub non_chord_tones: Vec<TheoryEntry>,
    pub harmonic_functions: Vec<TheoryEntry>,
    pub set_classes: Vec<TheoryEntry>,
    pub tuning_systems: Vec<TheoryEntry>,
    pub world_traditions: Vec<TheoryEntry>,
    pub style_eras: Vec<TheoryEntry>,
}

/// The domains in catalog order.
pub open spec fn domain_order() -> Seq<TheoryDomain> {
    seq![
        TheoryDomain::Intervals,
        TheoryDomain::Scales,
        TheoryDomain::Modes,
        TheoryDomain::ChordQualities,
        TheoryDomain::Cadences,
        TheoryDomain::Meters,
        TheoryDomain::Rhythms,
        TheoryDomain::Dynamics,
        TheoryDomain::Forms,
        TheoryDomain::Textures,
        TheoryDomain::Ornaments,
        TheoryDomain::ContrapuntalMotions,
        TheoryDomain::NonChordTones,
        TheoryDomain::HarmonicFunctions,
        TheoryDomain::SetClasses,
        TheoryDomain::TuningSystems,
        TheoryDomain::WorldTraditions,
        TheoryDomain::StyleEras,
    ]
}

/// The snake-case name of a domain (its `Display` text).
pub open spec fn domain_text(d: TheoryDomain) -> Seq<char> {
    match d {
        TheoryDomain::Intervals => "intervals"@,
        TheoryDomain::Scales => "scales"@,
        TheoryDomain::Modes => "modes"@,
        TheoryDomain::ChordQualities => "chord_qualities"@,
        TheoryDomain::Cadences => "cadences"@,
        TheoryDomain::Meters => "meters"@,
        TheoryDomain::Rhythms => "rhythms"@,
        TheoryDomain::Dynamics => "dynamics"@,
        TheoryDomain::Forms => "forms"@,
        TheoryDomain::Textures => "textures"@,
        TheoryDomain::Ornaments => "ornaments"@,
        TheoryDomain::ContrapuntalMotions => "contrapuntal_motions"@,
        TheoryDomain::NonChordTones => "non_chord_tones"@,
        TheoryDomain::HarmonicFunctions => "harmonic_functions"@,
        TheoryDomain::SetClasses => "set_classes"@,
        TheoryDomain::TuningSystems => "tuning_systems"@,
        TheoryDomain::WorldTraditions => "world_traditions"@,
        TheoryDomain::StyleEras => "style_eras"@,
    }
}

/// The domain that a name spells, when it spells one.
pub open spec fn domain_from_text(t: Seq<char>) -> Option<TheoryDomain> {
    if t == "intervals"@ {
        Some(TheoryDomain::Intervals)
    } else if t == "scales"@ {
        Some(TheoryDomain::Scales)
    } else if t == "modes"@ {
        Some(TheoryDomain::Modes)
    } else if t == "chord_qualities"@ {
        Some(TheoryDomain::ChordQualities)
    } else if t == "cadences"@ {
        Some(TheoryDomain::Cadences)
    } else if t == "meters"@ {
        Some(TheoryDomain::Meters)
    } else if t == "rhythms"@ {
        Some(TheoryDomain::Rhythms)
    } else if t == "dynamics"@ {
        Some(TheoryDomain::Dynamics)
    } else if t == "forms"@ {
        Some(TheoryDomain::Forms)
    } else if t == "textures"@ {
        Some(TheoryDomain::Textures)
    } else if t == "ornaments"@ {
        Some(TheoryDomain::Ornaments)
    } else if t == "contrapuntal_motions"@ {
        Some(TheoryDomain::ContrapuntalMotions)
    } else if t == "non_chord_tones"@ {
        Some(TheoryDomain::NonChordTones)
    } else if t == "harmonic_functions"@ {
        Some(TheoryDomain::HarmonicFunctions)
    } else if t == "set_classes"@ {
        Some(TheoryDomain::SetClasses)
    } else if t == "tuning_systems"@ {
        Some(TheoryDomain::TuningSystems)
    } else if t == "world_traditions"@ {
        Some(TheoryDomain::WorldTraditions)
    } else if t == "style_eras"@ {
        Some(TheoryDomain::StyleEras)
    } else {
        None
    }
}

/// Reading a domain's name gives the domain back (its `Display` text parses to it).
pub proof fn lemma_domain_name_parses(d: TheoryDomain)
    ensures
        domain_from_text(domain_text(d)) == Some(d),
{
    reveal_strlit("intervals");
    reveal_strlit("scales");
    reveal_strlit("modes");
    reveal_strlit("chord_qualities");
    reveal_strlit("cadences");
    reveal_strlit("meters");
    reveal_strlit("rhythms");
    reveal_strlit("dynamics");
    reveal_strlit("forms");
    reveal_strlit("textures");
    reveal_strlit("ornaments");
    reveal_strlit("contrapuntal_motions");
    reveal_strlit("non_chord_tones");
    reveal_strlit("harmonic_functions");
    reveal_strlit("set_classes");
    reveal_strlit("tuning_systems");
    reveal_strlit("world_traditions");
    reveal_strlit("style_eras");
    assert("intervals"@.len() == 9 && "intervals"@[0] == 'i');
    assert("scales"@.len() == 6 && "scales"@[0] == 's');
    assert("modes"@.len() == 5 && "modes"@[0] == 'm');
    assert("chord_qualities"@.len() == 15 && "chord_qualities"@[0] == 'c');
    assert("cadences"@.len() == 8 && "cadences"@[0] == 'c');
    assert("meters"@.len() == 6 && "meters"@[0] == 'm');
    assert("rhythms"@.len() == 7 && "rhythms"@[0] == 'r');
    assert("dynamics"@.len() == 8 && "dynamics"@[0] == 'd');
    assert("forms"@.len() == 5 && "forms"@[0] == 'f');
    assert("textures"@.len() == 8 && "textures"@[0] == 't');
    assert("ornaments"@.len() == 9 && "ornaments"@[0] == 'o');
    assert("contrapuntal_motions"@.len() == 20 && "contrapuntal_motions"@[0] == 'c');
    assert("non_chord_tones"@.len() == 15 && "non_chord_tones"@[0] == 'n');
    assert("harmonic_functions"@.len() == 18 && "harmonic_functions"@[0] == 'h');
    assert("set_classes"@.len() == 11 && "set_classes"@[0] == 's');
    assert("tuning_systems"@.len() == 14 && "tuning_systems"@[0] == 't');
    assert("world_traditions"@.len() == 16 && "world_traditions"@[0] == 'w');
    assert("style_eras"@.len() == 10 && "style_eras"@[0] == 's');
    match d {
        TheoryDomain::Intervals => {},
        TheoryDomain::Scales => {},
        TheoryDomain::Modes => {},
        TheoryDomain::ChordQualities => {},
        TheoryDomain::Cadences => {},
        TheoryDomain::Meters => {},
        TheoryDomain::Rhythms => {},
        TheoryDomain::Dynamics => {},
        TheoryDomain::Forms => {},
        TheoryDomain::Textures => {},
        TheoryDomain::Ornaments => {},
        TheoryDomain::ContrapuntalMotions => {},
        TheoryDomain::NonChordTones => {},
        TheoryDomain::HarmonicFunctions => {},
        TheoryDomain::SetClasses => {},
        TheoryDomain::TuningSystems => {},
        TheoryDomain::WorldTraditions => {},
        TheoryDomain::StyleEras => {},
    }
}

impl TheoryDomain {
    /// The domain's name (its `Display` text).
    pub fn name(self) -> (r: &'static str)
        ensures
            r@ == domain_text(self),
    {
        match self {
            TheoryDomain::Intervals => "intervals",
            TheoryDomain::Scales => "scales",
            TheoryDomain::Modes => "modes",
            TheoryDomain::ChordQualities => "chord_qualities",
            TheoryDomain::Cadences => "cadences",
            TheoryDomain::Meters => "meters",
            TheoryDomain::Rhythms => "rhythms",
            TheoryDomain::Dynamics => "dynamics",
            TheoryDomain::Forms => "forms",
            TheoryDomain::Textures => "textures",
            TheoryDomain::Ornaments => "ornaments",
            TheoryDomain::ContrapuntalMotions => "contrapuntal_motions",
            TheoryDomain::NonChordTones => "non_chord_tones",
            TheoryDomain::HarmonicFunctions => "harmonic_functions",
            TheoryDomain::SetClasses => "set_classes",
            TheoryDomain::TuningSystems => "tuning_systems",
            TheoryDomain::WorldTraditions => "world_traditions",
            TheoryDomain::StyleEras => "style_eras",
        }
    }

    /// Reads a domain name (`FromStr`).
    pub fn parse(value: &str) -> (r: Result<TheoryDomain, CoreError>)
        ensures
            r matches Ok(d) ==> domain_from_text(value@) == Some(d),
            r is Err <==> domain_from_text(value@) is None,
            r matches Err(e) ==> (e matches CoreError::InvalidTheoryDomain(t) && t@ == value@),
    {
        if str_eq(value, "intervals") {
            Ok(TheoryDomain::Intervals)
        } else if str_eq(value, "scales") {
            Ok(TheoryDomain::Scales)
        } else if str_eq(value, "modes") {
            Ok(TheoryDomain::Modes)
        } else if str_eq(value, "chord_qualities") {
            Ok(TheoryDomain::ChordQualities)
        } else if str_eq(value, "cadences") {
            Ok(TheoryDomain::Cadences)
        } else if str_eq(value, "meters") {
            Ok(TheoryDomain::Meters)
        } else if str_eq(value, "rhythms") {
            Ok(TheoryDomain::Rhythms)
        } else if str_eq(value, "dynamics") {
            Ok(TheoryDomain::Dynamics)
        } else if str_eq(value, "forms") {
            Ok(TheoryDomain::Forms)
        } else if str_eq(value, "textures") {
            Ok(TheoryDomain::Textures)
        } else if str_eq(value, "ornaments") {
            Ok(TheoryDomain::Ornaments)
        } else if str_eq(value, "contrapuntal_motions") {
            Ok(TheoryDomain::ContrapuntalMotions)
        } else if str_eq(value, "non_chord_tones") {
            Ok(TheoryDomain::NonChordTones)
        } else if str_eq(value, "harmonic_functions") {
            Ok(TheoryDomain::HarmonicFunctions)
        } else if str_eq(value, "set_classes") {
            Ok(TheoryDomain::SetClasses)
        } else if str_eq(value, "tuning_systems") {
            Ok(TheoryDomain::TuningSystems)
        } else if str_eq(value, "world_traditions") {
            Ok(TheoryDomain::WorldTraditions)
        } else if str_eq(value, "style_eras") {
            Ok(TheoryDomain::StyleEras)
        } else {
            Err(CoreError::InvalidTheoryDomain(owned(value)))
        }
    }
}

/// Index of the first entry with a given id, or -1.
pub open spec fn entry_index(entries: Seq<TheoryEntry>, id: Seq<char>) -> int
    decreases entries.len(),
{
    if entries.len() == 0 {
        -1
    } else if entries.last().id@ == id && entry_index(entries.drop_last(), id) < 0 {
        entries.len() - 1
    } else {
        entry_index(entries.drop_last(), id)
    }
}

/// Whether some entry has the given id.
pub open spec fn has_entry(entries: Seq<TheoryEntry>, id: Seq<char>) -> bool {
    exists|i: int| 0 <= i < entries.len() && (#[trigger] entries[i]).id@ == id
}

impl TheoryCatalog {
    /// The entries of one domain.
    pub open spec fn entries_spec(self, domain: TheoryDomain) -> Seq<TheoryEntry> {
        match domain {
            TheoryDomain::Intervals => self.intervals@,
            TheoryDomain::Scales => self.scales@,
            TheoryDomain::Modes => self.modes@,
            TheoryDomain::ChordQualities => self.chord_qualities@,
            TheoryDomain::Cadences => self.cadences@,
            TheoryDomain::Meters => self.meters@,
            TheoryDomain::Rhythms => self.rhythms@,
            TheoryDomain::Dynamics => self.dynamics@,
            TheoryDomain::Forms => self.forms@,
            TheoryDomain::Textures => self.textures@,
            TheoryDomain::Ornaments => self.ornaments@,
            TheoryDomain::ContrapuntalMotions => self.contrapuntal_motions@,
            TheoryDomain::NonChordTones => self.non_chord_tones@,
            TheoryDomain::HarmonicFunctions => self.harmonic_functions@,
            TheoryDomain::SetClasses => self.set_classes@,
            TheoryDomain::TuningSystems => self.tuning_systems@,
            TheoryDomain::WorldTraditions => self.world_traditions@,
            TheoryDomain::StyleEras => self.style_eras@,
        }
    }

    /// Every domain holds at least one entry.
    pub open spec fn wf(self) -> bool {
        forall|d: TheoryDomain| #[trigger] self.entries_spec(d).len() > 0
    }

    /// The first domain in `ds` that has an entry with the given id, with that entry.
    pub open spec fn find_in(self, ds: Seq<TheoryDomain>, id: Seq<char>) -> Option<
        (TheoryDomain, TheoryEntry),
    >
        decreases ds.len(),
    {
        if ds.len() == 0 {
            None
        } else {
            let k = entry_index(self.entries_spec(ds[0]), id);
            if k >= 0 {
                Some((ds[0], self.entries_spec(ds[0])[k]))
            } else {
                self.find_in(ds.drop_first(), id)
            }
        }
    }

    /// The domains in catalog order.
    pub fn domains() -> (r: Vec<TheoryDomain>)
        ensures
            r@ == domain_order(),
    {
        let r = vec![
            TheoryDomain::Intervals,
            TheoryDomain::Scales,
            TheoryDomain::Modes,
            TheoryDomain::ChordQualities,
            TheoryDomain::Cadences,
            TheoryDomain::Meters,
            TheoryDomain::Rhythms,
            TheoryDomain::Dynamics,
            TheoryDomain::Forms,
            TheoryDomain::Textures,
            TheoryDomain::Ornaments,
            TheoryDomain::ContrapuntalMotions,
            TheoryDomain::NonChordTones,
            TheoryDomain::HarmonicFunctions,
            TheoryDomain::SetClasses,
            TheoryDomain::TuningSystems,
            TheoryDomain::WorldTraditions,
            TheoryDomain::StyleEras,
        ];
        assert(r@ =~= domain_order());
        r
    }

    pub fn entries(&self, domain: TheoryDomain) -> (r: &Vec<TheoryEntry>)
        ensures
            r@ == self.entries_spec(domain),
    {
        match domain {
            TheoryDomain::Intervals => &self.intervals,
            TheoryDomain::Scales => &self.scales,
            TheoryDomain::Modes => &self.modes,
            TheoryDomain::ChordQualities => &self.chord_qualities,
            TheoryDomain::Cadences => &self.cadences,
            TheoryDomain::Meters => &self.meters,
            TheoryDomain::Rhythms => &self.rhythms,
            TheoryDomain::Dynamics => &self.dynamics,
            TheoryDomain::Forms => &self.forms,
            TheoryDomain::Textures => &self.textures,
            TheoryDomain::Ornaments => &self.ornaments,
            TheoryDomain::ContrapuntalMotions => &self.contrapuntal_motions,
            TheoryDomain::NonChordTones => &self.non_chord_tones,
            TheoryDomain::HarmonicFunctions => &self.harmonic_functions,
            TheoryDomain::SetClasses => &self.set_classes,
            TheoryDomain::TuningSystems => &self.tuning_systems,
            TheoryDomain::WorldTraditions => &self.world_traditions,
            TheoryDomain::StyleEras => &self.style_eras,
        }
    }

    /// Index of the first entry of a domain with the given id.
    pub fn entry_position(&self, domain: TheoryDomain, id: &str) -> (r: Option<usize>)
        ensures
            r is None <==> entry_index(self.entries_spec(domain), id@) < 0,
            r matches Some(i) ==> i == entry_index(self.entries_spec(domain), id@) && i
                < self.entries_spec(domain).len() && self.entries_spec(domain)[i as int].id@ == id@,
            entry_index(self.entries_spec(domain), id@) < 0 <==> !has_entry(
                self.entries_spec(domain),
                id@,
            ),
    {
        let entries = self.entries(domain);
        let mut i: usize = 0;
        while i < entries.len()
            invariant
                i <= entries@.len(),
                entries@ == self.entries_spec(domain),
                entry_index(entries@.take(i as int), id@) < 0,
                forall|j: int| 0 <= j < i ==> (#[trigger] entries@[j]).id@ != id@,
            decreases entries.len() - i,
        {
            let ghost t = entries@.take(i + 1);
            assert(t.drop_last() =~= entries@.take(i as int));
            if str_eq(entries[i].id, id) {
                proof {
                    lemma_entry_index_prefix(entries@, id@, i as int);
                }
                return Some(i);
            }
            i = i + 1;
        }
        assert(entries@.take(i as int) =~= entries@);
        proof {
            lemma_entry_index_none(entries@, id@);
        }
        None
    }

    /// The first domain, in catalog order, with an entry of the given id, and that entry.
    pub fn find(&self, id: &str) -> (r: Option<(TheoryDomain, &TheoryEntry)>)
        ensures
            r matches Some((d, e)) ==> self.find_in(domain_order(), id@) == Some((d, *e)),
            r is None ==> self.find_in(domain_order(), id@) is None,
    {
        let domains = TheoryCatalog::domains();
        let mut k: usize = 0;
        assert(domains@.skip(0) =~= domains@);
        while k < domains.len()
            invariant
                k <= domains@.len(),
                domains@ == domain_order(),
                self.find_in(domains@.skip(k as int), id@) == self.find_in(domain_order(), id@),
            decreases domains.len() - k,
        {
            let d = domains[k];
            let ghost rest = domains@.skip(k as int);
            assert(rest[0] == d);
            assert(rest.drop_first() =~= domains@.skip(k + 1));
            match self.entry_position(d, id) {
                Some(i) => {
                    return Some((d, &self.entries(d)[i]));
                },
                None => {},
            }
            k = k + 1;
        }
        None
    }
}

proof fn lemma_entry_index_prefix(entries: Seq<TheoryEntry>, id: Seq<char>, i: int)
    requires
        0 <= i < entries.len(),
        entries[i].id@ == id,
        entry_index(entries.take(i), id) < 0,
    ensures
        entry_index(entries, id) == i,
    decreases entries.len(),
{
    if entries.len() - 1 > i {
        assert(entries.drop_last().take(i) =~= entries.take(i));
        lemma_entry_index_prefix(entries.drop_last(), id, i);
    } else {
        assert(entries.drop_last() =~= entries.take(i));
    }
}

proof fn lemma_entry_index_none(entries: Seq<TheoryEntry>, id: Seq<char>)
    ensures
        entry_index(entries, id) < 0 <==> !has_entry(entries, id),
        entry_index(entries, id) >= 0 ==> entry_index(entries, id) < entries.len() && entries[entry_index(entries, id)].id@ == id,
    decreases entries.len(),
{
    if entries.len() > 0 {
        lemma_entry_index_none(entries.drop_last(), id);
        if has_entry(entries, id) {
            let i = choose|i: int| 0 <= i < entries.len() && (#[trigger] entries[i]).id@ == id;
            if i < entries.len() - 1 {
                assert(entries.drop_last()[i] == entries[i]);
            }
        }
        if has_entry(entries.drop_last(), id) {
            let i = choose|i: int|
                0 <= i < entries.drop_last().len() && (#[trigger] entries.drop_last()[i]).id@ == id;
            assert(entries[i] == entries.drop_last()[i]);
        }
    }
}

/// The catalog's entries of a domain, each by its id and its pattern.
pub open spec fn catalog_rows(d: TheoryDomain) -> Seq<(Seq<char>, Seq<Seq<char>>)> {
    match d {
        TheoryDomain::Intervals => seq![
            ("P1"@, seq!["0"@]),
            ("m2"@, seq!["1"@]),
            ("M2"@, seq!["2"@]),
            ("m3"@, seq!["3"@]),
            ("M3"@, seq!["4"@]),
            ("P4"@, seq!["5"@]),
            ("TT"@, seq!["6"@]),
            ("P5"@, seq!["7"@]),
            ("m6"@, seq!["8"@]),
            ("M6"@, seq!["9"@]),
            ("m7"@, seq!["10"@]),
            ("M7"@, seq!["11"@]),
            ("P8"@, seq!["12"@]),
        ],
        TheoryDomain::Scales => seq![
            ("major"@, seq!["2"@, "2"@, "1"@, "2"@, "2"@, "2"@, "1"@]),
            ("natural_minor"@, seq!["2"@, "1"@, "2"@, "2"@, "1"@, "2"@, "2"@]),
            ("harmonic_minor"@, seq!["2"@, "1"@, "2"@, "2"@, "1"@, "3"@, "1"@]),
            ("melodic_minor"@, seq!["2"@, "1"@, "2"@, "2"@, "2"@, "2"@, "1"@]),
            ("major_pentatonic"@, seq!["2"@, "2"@, "3"@, "2"@, "3"@]),
            ("minor_pentatonic"@, seq!["3"@, "2"@, "2"@, "3"@, "2"@]),
            ("blues"@, seq!["3"@, "2"@, "1"@, "1"@, "3"@, "2"@]),
            ("whole_tone"@, seq!["2"@, "2"@, "2"@, "2"@, "2"@, "2"@]),
            ("octatonic_wh"@, seq!["2"@, "1"@, "2"@, "1"@, "2"@, "1"@, "2"@, "1"@]),
            ("octatonic_hw"@, seq!["1"@, "2"@, "1"@, "2"@, "1"@, "2"@, "1"@, "2"@]),
            ("chromatic"@, seq!["1"@, "1"@, "1"@, "1"@, "1"@, "1"@, "1"@, "1"@, "1"@, "1"@, "1"@, "1"@]),
            ("hirajoshi"@, seq!["2"@, "1"@, "4"@, "1"@, "4"@]),
            ("in_sen"@, seq!["1"@, "4"@, "2"@, "3"@, "2"@]),
            ("pelog"@, seq!["1"@, "2"@, "4"@, "1"@, "4"@]),
            ("slendro"@, seq!["2"@, "2"@, "3"@, "2"@, "3"@]),
        ],
        TheoryDomain::Modes => seq![
            ("ionian"@, seq!["W"@, "W"@, "H"@, "W"@, "W"@, "W"@, "H"@]),
            ("dorian"@, seq!["W"@, "H"@, "W"@, "W"@, "W"@, "H"@, "W"@]),
            ("phrygian"@, seq!["H"@, "W"@, "W"@, "W"@, "H"@, "W"@, "W"@]),
            ("lydian"@, seq!["W"@, "W"@, "W"@, "H"@, "W"@, "W"@, "H"@]),
            ("mixolydian"@, seq!["W"@, "W"@, "H"@, "W"@, "W"@, "H"@, "W"@]),
            ("aeolian"@, seq!["W"@, "H"@, "W"@, "W"@, "H"@, "W"@, "W"@]),
            ("locrian"@, seq!["H"@, "W"@, "W"@, "H"@, "W"@, "W"@, "W"@]),
        ],
        TheoryDomain::ChordQualities => seq![
            ("major"@, seq!["0"@, "4"@, "7"@]),
            ("minor"@, seq!["0"@, "3"@, "7"@]),
            ("diminished"@, seq!["0"@, "3"@, "6"@]),
            ("augmented"@, seq!["0"@, "4"@, "8"@]),
            ("dominant7"@, seq!["0"@, "4"@, "7"@, "10"@]),
            ("major7"@, seq!["0"@, "4"@, "7"@, "11"@]),
            ("minor7"@, seq!["0"@, "3"@, "7"@, "10"@]),
        ],
        TheoryDomain::Cadences => seq![
            ("authentic"@, seq!["V"@, "I"@]),
            ("plagal"@, seq!["IV"@, "I"@]),
            ("half"@, seq!["*"@, "V"@]),
            ("deceptive"@, seq!["V"@, "vi"@]),
        ],
        TheoryDomain::Meters => seq![
            ("2/4"@, seq!["strong"@, "weak"@]),
            ("3/4"@, seq!["strong"@, "weak"@, "weak"@]),
            ("4/4"@, seq!["strong"@, "weak"@, "medium"@, "weak"@]),
            ("6/8"@, seq!["strong"@, "weak"@, "weak"@, "medium"@, "weak"@, "weak"@]),
        ],
        TheoryDomain::Rhythms => seq![
            ("syncopation"@, seq!["weak_accent"@, "offbeat"@]),
            ("hemiola"@, seq!["3:2"@]),
            ("swing"@, seq!["2:1"@, "triplet_subdivision"@]),
            ("ostinato"@, seq!["repeat"@, "cell"@]),
        ],
        TheoryDomain::Dynamics => seq![
            ("ppp"@, seq!["16"@]),
            ("pp"@, seq!["32"@]),
            ("p"@, seq!["48"@]),
            ("mp"@, seq!["64"@]),
            ("mf"@, seq!["80"@]),
            ("f"@, seq!["96"@]),
            ("ff"@, seq!["112"@]),
            ("fff"@, seq!["127"@]),
            ("sfz"@, seq!["118"@]),
        ],
        TheoryDomain::Forms => seq![
            ("binary"@, seq!["A"@, "B"@]),
            ("ternary"@, seq!["A"@, "B"@, "A"@]),
            ("sonata"@, seq!["exposition"@, "development"@, "recapitulation"@]),
            ("rondo"@, seq!["A"@, "B"@, "A"@, "C"@, "A"@]),
            ("twelve_bar_blues"@, seq!["I"@, "I"@, "I"@, "I"@, "IV"@, "IV"@, "I"@, "I"@, "V"@, "IV"@, "I"@, "V"@]),
        ],
        TheoryDomain::Textures => seq![
            ("monophony"@, seq!["one_voice"@]),
            ("homophony"@, seq!["melody"@, "accompaniment"@]),
            ("polyphony"@, seq!["independent_voices"@]),
            ("heterophony"@, seq!["shared_melody"@, "variation"@]),
        ],
        TheoryDomain::Ornaments => seq![
            ("trill"@, seq!["upper_neighbor"@, "main_note"@]),
            ("mordent"@, seq!["main"@, "neighbor"@, "main"@]),
            ("turn"@, seq!["upper"@, "main"@, "lower"@, "main"@]),
            ("appoggiatura"@, seq!["accented_dissonance"@, "step_resolution"@]),
            ("staccato"@, seq!["duration:50"@]),
            ("tenuto"@, seq!["duration:100"@]),
            ("accent"@, seq!["velocity:+16"@]),
            ("legato"@, seq!["duration:100"@]),
        ],
        TheoryDomain::ContrapuntalMotions => seq![
            ("parallel"@, seq!["same_direction"@, "same_interval"@]),
            ("similar"@, seq!["same_direction"@, "different_interval"@]),
            ("contrary"@, seq!["opposite_direction"@]),
            ("oblique"@, seq!["held_voice"@, "moving_voice"@]),
        ],
        TheoryDomain::NonChordTones => seq![
            ("passing_tone"@, seq!["chord"@, "step"@, "non_chord"@, "step"@, "chord"@]),
            ("neighbor_tone"@, seq!["chord"@, "step"@, "non_chord"@, "step_back"@, "chord"@]),
            ("suspension"@, seq!["preparation"@, "suspension"@, "resolution"@]),
            ("anticipation"@, seq!["early_next_chord_tone"@]),
        ],
        TheoryDomain::HarmonicFunctions => seq![
            ("tonic"@, seq!["I"@, "vi"@]),
            ("predominant"@, seq!["ii"@, "IV"@]),
            ("dominant"@, seq!["V"@, "vii°"@]),
            ("secondary_dominant"@, seq!["V/x"@, "x"@]),
            ("submediant"@, seq!["vi"@]),
        ],
        TheoryDomain::SetClasses => seq![
            ("016"@, seq!["0"@, "1"@, "6"@]),
            ("037"@, seq!["0"@, "3"@, "7"@]),
            ("0257"@, seq!["0"@, "2"@, "5"@, "7"@]),
            ("all_interval_tetrachord"@, seq!["0"@, "1"@, "4"@, "6"@]),
        ],
        TheoryDomain::TuningSystems => seq![
            ("equal_temperament_12"@, seq!["12-EDO"@]),
            ("just_intonation"@, seq!["3:2"@, "5:4"@, "6:5"@]),
            ("pythagorean"@, seq!["3:2_cycle"@]),
            ("quarter_comma_meantone"@, seq!["meantone"@, "5:4"@]),
        ],
        TheoryDomain::WorldTraditions => seq![
            ("hindustani_raga"@, seq!["aroha"@, "avaroha"@, "vadi"@, "samvadi"@]),
            ("maqam"@, seq!["jins"@, "sayr"@]),
            ("gamelan_slendro"@, seq!["five_tones"@, "cyclic_colotomic_form"@]),
            ("west_african_timeline"@, seq!["cycle"@, "timeline"@, "cross_rhythm"@]),
        ],
        TheoryDomain::StyleEras => seq![
            ("renaissance"@, seq!["modes"@, "imitative_counterpoint"@]),
            ("baroque"@, seq!["functional_harmony"@, "counterpoint"@]),
            ("classical"@, seq!["tonal_harmony"@, "periodic_phrase"@]),
            ("romantic"@, seq!["chromaticism"@, "expanded_tonality"@]),
            ("jazz"@, seq!["seventh_chords"@, "extensions"@, "ii_V_I"@]),
            ("popular"@, seq!["diatonic_loops"@, "backbeat"@]),
        ],
    }
}

/// No two rows of a table share an id.
pub open spec fn ids_distinct(rows: Seq<(Seq<char>, Seq<Seq<char>>)>) -> bool {
    forall|i: int, j: int| 0 <= i < j < rows.len() ==> #[trigger] rows[i].0 != #[trigger] rows[j].0
}

proof fn lemma_intervals_ids_distinct()
    ensures
        ids_distinct(catalog_rows(TheoryDomain::Intervals)),
{
    reveal_strlit("M2");
    reveal_strlit("M3");
    reveal_strlit("M6");
    reveal_strlit("M7");
    reveal_strlit("P1");
    reveal_strlit("P4");
    reveal_strlit("P5");
    reveal_strlit("P8");
    reveal_strlit("TT");
    reveal_strlit("m2");
    reveal_strlit("m3");
    reveal_strlit("m6");
    reveal_strlit("m7");
    assert("M2"@ =~= seq!['M', '2']);
    assert("M3"@ =~= seq!['M', '3']);
    assert("M6"@ =~= seq!['M', '6']);
    assert("M7"@ =~= seq!['M', '7']);
    assert("P1"@ =~= seq!['P', '1']);
    assert("P4"@ =~= seq!['P', '4']);
    assert("P5"@ =~= seq!['P', '5']);
    assert("P8"@ =~= seq!['P', '8']);
    assert("TT"@ =~= seq!['T', 'T']);
    assert("m2"@ =~= seq!['m', '2']);
    assert("m3"@ =~= seq!['m', '3']);
    assert("m6"@ =~= seq!['m', '6']);
    assert("m7"@ =~= seq!['m', '7']);
    let rows = catalog_rows(TheoryDomain::Intervals);
    assert forall|i: int, j: int| 0 <= i < j < rows.len() implies #[trigger] rows[i].0 != #[trigger] rows[j].0 by {}
}

proof fn lemma_scales_ids_distinct()
    ensures
        ids_distinct(catalog_rows(TheoryDomain::Scales)),
{
    reveal_strlit("blues");
    reveal_strlit("chromatic");
    reveal_strlit("harmonic_minor");
    reveal_strlit("hirajoshi");
    reveal_strlit("in_sen");
    reveal_strlit("major");
    reveal_strlit("major_pentatonic");
    reveal_strlit("melodic_minor");
    reveal_strlit("minor_pentatonic");
    reveal_strlit("natural_minor");
    reveal_strlit("octatonic_hw");
    reveal_strlit("octatonic_wh");
    reveal_strlit("pelog");
    reveal_strlit("slendro");
    reveal_strlit("whole_tone");
    assert("blues"@ =~= seq!['b', 'l', 'u', 'e', 's']);
    assert("chromatic"@ =~= seq!['c', 'h', 'r', 'o', 'm', 'a', 't', 'i', 'c']);
    assert("harmonic_minor"@ =~= seq!['h', 'a', 'r', 'm', 'o', 'n', 'i', 'c', '_', 'm', 'i', 'n', 'o', 'r']);
    assert("hirajoshi"@ =~= seq!['h', 'i', 'r', 'a', 'j', 'o', 's', 'h', 'i']);
    assert("in_sen"@ =~= seq!['i', 'n', '_', 's', 'e', 'n']);
    assert("major"@ =~= seq!['m', 'a', 'j', 'o', 'r']);
    assert("major_pentatonic"@ =~= seq!['m', 'a', 'j', 'o', 'r', '_', 'p', 'e', 'n', 't', 'a', 't', 'o', 'n', 'i', 'c']);
    assert("melodic_minor"@ =~= seq!['m', 'e', 'l', 'o', 'd', 'i', 'c', '_', 'm', 'i', 'n', 'o', 'r']);
    assert("minor_pentatonic"@ =~= seq!['m', 'i', 'n', 'o', 'r', '_', 'p', 'e', 'n', 't', 'a', 't', 'o', 'n', 'i', 'c']);
    assert("natural_minor"@ =~= seq!['n', 'a', 't', 'u', 'r', 'a', 'l', '_', 'm', 'i', 'n', 'o', 'r']);
    assert("octatonic_hw"@ =~= seq!['o', 'c', 't', 'a', 't', 'o', 'n', 'i', 'c', '_', 'h', 'w']);
    assert("octatonic_wh"@ =~= seq!['o', 'c', 't', 'a', 't', 'o', 'n', 'i', 'c', '_', 'w', 'h']);
    assert("pelog"@ =~= seq!['p', 'e', 'l', 'o', 'g']);
    assert("slendro"@ =~= seq!['s', 'l', 'e', 'n', 'd', 'r', 'o']);
    assert("whole_tone"@ =~= seq!['w', 'h', 'o', 'l', 'e', '_', 't', 'o', 'n', 'e']);
    let rows = catalog_rows(TheoryDomain::Scales);
    assert forall|i: int, j: int| 0 <= i < j < rows.len() implies #[trigger] rows[i].0 != #[trigger] rows[j].0 by {}
}

proof fn lemma_modes_ids_distinct()
    ensures
        ids_distinct(catalog_rows(TheoryDomain::Modes)),
{
    reveal_strlit("aeolian");
    reveal_strlit("dorian");
    reveal_strlit("ionian");
    reveal_strlit("locrian");
    reveal_strlit("lydian");
    reveal_strlit("mixolydian");
    reveal_strlit("phrygian");
    assert("aeolian"@ =~= seq!['a', 'e', 'o', 'l', 'i', 'a', 'n']);
    assert("dorian"@ =~= seq!['d', 'o', 'r', 'i', 'a', 'n']);
    assert("ionian"@ =~= seq!['i', 'o', 'n', 'i', 'a', 'n']);
    assert("locrian"@ =~= seq!['l', 'o', 'c', 'r', 'i', 'a', 'n']);
    assert("lydian"@ =~= seq!['l', 'y', 'd', 'i', 'a', 'n']);
    assert("mixolydian"@ =~= seq!['m', 'i', 'x', 'o', 'l', 'y', 'd', 'i', 'a', 'n']);
    assert("phrygian"@ =~= seq!['p', 'h', 'r', 'y', 'g', 'i', 'a', 'n']);
    let rows = catalog_rows(TheoryDomain::Modes);
    assert forall|i: int, j: int| 0 <= i < j < rows.len() implies #[trigger] rows[i].0 != #[trigger] rows[j].0 by {}
}

proof fn lemma_chord_qualities_ids_distinct()
    ensures
        ids_distinct(catalog_rows(TheoryDomain::ChordQualities)),
{
    reveal_strlit("augmented");
    reveal_strlit("diminished");
    reveal_strlit("dominant7");
    reveal_strlit("major");
    reveal_strlit("major7");
    reveal_strlit("minor");
    reveal_strlit("minor7");
    assert("augmented"@ =~= seq!['a', 'u', 'g', 'm', 'e', 'n', 't', 'e', 'd']);
    assert("diminished"@ =~= seq!['d', 'i', 'm', 'i', 'n', 'i', 's', 'h', 'e', 'd']);
    assert("dominant7"@ =~= seq!['d', 'o', 'm', 'i', 'n', 'a', 'n', 't', '7']);
    assert("major"@ =~= seq!['m', 'a', 'j', 'o', 'r']);
    assert("major7"@ =~= seq!['m', 'a', 'j', 'o', 'r', '7']);
    assert("minor"@ =~= seq!['m', 'i', 'n', 'o', 'r']);
    assert("minor7"@ =~= seq!['m', 'i', 'n', 'o', 'r', '7']);
    let rows = catalog_rows(TheoryDomain::ChordQualities);
    assert forall|i: int, j: int| 0 <= i < j < rows.len() implies #[trigger] rows[i].0 != #[trigger] rows[j].0 by {}
}

proof fn lemma_cadences_ids_distinct()
    ensures
        ids_distinct(catalog_rows(TheoryDomain::Cadences)),
{
    reveal_strlit("authentic");
    reveal_strlit("deceptive");
    reveal_strlit("half");
    reveal_strlit("plagal");
    assert("authentic"@ =~= seq!['a', 'u', 't', 'h', 'e', 'n', 't', 'i', 'c']);
    assert("deceptive"@ =~= seq!['d', 'e', 'c', 'e', 'p', 't', 'i', 'v', 'e']);
    assert("half"@ =~= seq!['h', 'a', 'l', 'f']);
    assert("plagal"@ =~= seq!['p', 'l', 'a', 'g', 'a', 'l']);
    let rows = catalog_rows(TheoryDomain::Cadences);
    assert forall|i: int, j: int| 0 <= i < j < rows.len() implies #[trigger] rows[i].0 != #[trigger] rows[j].0 by {}
}

proof fn lemma_meters_ids_distinct()
    ensures
        ids_distinct(catalog_rows(TheoryDomain::Meters)),
{
    reveal_strlit("2/4");
    reveal_strlit("3/4");
    reveal_strlit("4/4");
    reveal_strlit("6/8");
    assert("2/4"@ =~= seq!['2', '/', '4']);
    assert("3/4"@ =~= seq!['3', '/', '4']);
    assert("4/4"@ =~= seq!['4', '/', '4']);
    assert("6/8"@ =~= seq!['6', '/', '8']);
    let rows = catalog_rows(TheoryDomain::Meters);
    assert forall|i: int, j: int| 0 <= i < j < rows.len() implies #[trigger] rows[i].0 != #[trigger] rows[j].0 by {}
}

proof fn lemma_rhythms_ids_distinct()
    ensures
        ids_distinct(catalog_rows(TheoryDomain::Rhythms)),
{
    reveal_strlit("hemiola");
    reveal_strlit("ostinato");
    reveal_strlit("swing");
    reveal_strlit("syncopation");
    assert("hemiola"@ =~= seq!['h', 'e', 'm', 'i', 'o', 'l', 'a']);
    assert("ostinato"@ =~= seq!['o', 's', 't', 'i', 'n', 'a', 't', 'o']);
    assert("swing"@ =~= seq!['s', 'w', 'i', 'n', 'g']);
    assert("syncopation"@ =~= seq!['s', 'y', 'n', 'c', 'o', 'p', 'a', 't', 'i', 'o', 'n']);
    let rows = catalog_rows(TheoryDomain::Rhythms);
    assert forall|i: int, j: int| 0 <= i < j < rows.len() implies #[trigger] rows[i].0 != #[trigger] rows[j].0 by {}
}

proof fn lemma_dynamics_ids_distinct()
    ensures
        ids_distinct(catalog_rows(TheoryDomain::Dynamics)),
{
    reveal_strlit("f");
    reveal_strlit("ff");
    reveal_strlit("fff");
    reveal_strlit("mf");
    reveal_strlit("mp");
    reveal_strlit("p");
    reveal_strlit("pp");
    reveal_strlit("ppp");
    reveal_strlit("sfz");
    assert("ppp"@[0] != "fff"@[0]);
    assert("ppp"@[0] != "sfz"@[0]);
    assert("pp"@[0] != "mp"@[0]);
    assert("pp"@[0] != "mf"@[0]);
    assert("pp"@[0] != "ff"@[0]);
    assert("p"@[0] != "f"@[0]);
    assert("mp"@[1] != "mf"@[1]);
    assert("mp"@[0] != "ff"@[0]);
    assert("mf"@[0] != "ff"@[0]);
    assert("fff"@[0] != "sfz"@[0]);
    assert("ppp"@.len() != "pp"@.len());
    assert("ppp"@.len() != "p"@.len());
    assert("ppp"@.len() != "mp"@.len());
    assert("ppp"@.len() != "mf"@.len());
    assert("ppp"@.len() != "f"@.len());
    assert("ppp"@.len() != "ff"@.len());
    assert("pp"@.len() != "p"@.len());
    assert("pp"@.len() != "f"@.len());
    assert("pp"@.len() != "fff"@.len());
    assert("pp"@.len() != "sfz"@.len());
    assert("p"@.len() != "mp"@.len());
    assert("p"@.len() != "mf"@.len());
    assert("p"@.len() != "ff"@.len());
    assert("p"@.len() != "fff"@.len());
    assert("p"@.len() != "sfz"@.len());
    assert("mp"@.len() != "f"@.len());
    assert("mp"@.len() != "fff"@.len());
    assert("mp"@.len() != "sfz"@.len());
    assert("mf"@.len() != "f"@.len());
    assert("mf"@.len() != "fff"@.len());
    assert("mf"@.len() != "sfz"@.len());
    assert("f"@.len() != "ff"@.len());
    assert("f"@.len() != "fff"@.len());
    assert("f"@.len() != "sfz"@.len());
    assert("ff"@.len() != "fff"@.len());
    assert("ff"@.len() != "sfz"@.len());
    let rows = catalog_rows(TheoryDomain::Dynamics);
    assert forall|i: int, j: int| 0 <= i < j < rows.len() implies #[trigger] rows[i].0 != #[trigger] rows[j].0 by {}
}

proof fn lemma_forms_ids_distinct()
    ensures
        ids_distinct(catalog_rows(TheoryDomain::Forms)),
{
    reveal_strlit("binary");
    reveal_strlit("rondo");
    reveal_strlit("sonata");
    reveal_strlit("ternary");
    reveal_strlit("twelve_bar_blues");
    assert("binary"@ =~= seq!['b', 'i', 'n', 'a', 'r', 'y']);
    assert("rondo"@ =~= seq!['r', 'o', 'n', 'd', 'o']);
    assert("sonata"@ =~= seq!['s', 'o', 'n', 'a', 't', 'a']);
    assert("ternary"@ =~= seq!['t', 'e', 'r', 'n', 'a', 'r', 'y']);
    assert("twelve_bar_blues"@ =~= seq!['t', 'w', 'e', 'l', 'v', 'e', '_', 'b', 'a', 'r', '_', 'b', 'l', 'u', 'e', 's']);
    let rows = catalog_rows(TheoryDomain::Forms);
    assert forall|i: int, j: int| 0 <= i < j < rows.len() implies #[trigger] rows[i].0 != #[trigger] rows[j].0 by {}
}

proof fn lemma_textures_ids_distinct()
    ensures
        ids_distinct(catalog_rows(TheoryDomain::Textures)),
{
    reveal_strlit("heterophony");
    reveal_strlit("homophony");
    reveal_strlit("monophony");
    reveal_strlit("polyphony");
    assert("heterophony"@ =~= seq!['h', 'e', 't', 'e', 'r', 'o', 'p', 'h', 'o', 'n', 'y']);
    assert("homophony"@ =~= seq!['h', 'o', 'm', 'o', 'p', 'h', 'o', 'n', 'y']);
    assert("monophony"@ =~= seq!['m', 'o', 'n', 'o', 'p', 'h', 'o', 'n', 'y']);
    assert("polyphony"@ =~= seq!['p', 'o', 'l', 'y', 'p', 'h', 'o', 'n', 'y']);
    let rows = catalog_rows(TheoryDomain::Textures);
    assert forall|i: int, j: int| 0 <= i < j < rows.len() implies #[trigger] rows[i].0 != #[trigger] rows[j].0 by {}
}

proof fn lemma_ornaments_ids_distinct()
    ensures
        ids_distinct(catalog_rows(TheoryDomain::Ornaments)),
{
    reveal_strlit("accent");
    reveal_strlit("appoggiatura");
    reveal_strlit("legato");
    reveal_strlit("mordent");
    reveal_strlit("staccato");
    reveal_strlit("tenuto");
    reveal_strlit("trill");
    reveal_strlit("turn");
    assert("accent"@ =~= seq!['a', 'c', 'c', 'e', 'n', 't']);
    assert("appoggiatura"@ =~= seq!['a', 'p', 'p', 'o', 'g', 'g', 'i', 'a', 't', 'u', 'r', 'a']);
    assert("legato"@ =~= seq!['l', 'e', 'g', 'a', 't', 'o']);
    assert("mordent"@ =~= seq!['m', 'o', 'r', 'd', 'e', 'n', 't']);
    assert("staccato"@ =~= seq!['s', 't', 'a', 'c', 'c', 'a', 't', 'o']);
    assert("tenuto"@ =~= seq!['t', 'e', 'n', 'u', 't', 'o']);
    assert("trill"@ =~= seq!['t', 'r', 'i', 'l', 'l']);
    assert("turn"@ =~= seq!['t', 'u', 'r', 'n']);
    let rows = catalog_rows(TheoryDomain::Ornaments);
    assert forall|i: int, j: int| 0 <= i < j < rows.len() implies #[trigger] rows[i].0 != #[trigger] rows[j].0 by {}
}

proof fn lemma_contrapuntal_motions_ids_distinct()
    ensures
        ids_distinct(catalog_rows(TheoryDomain::ContrapuntalMotions)),
{
    reveal_strlit("contrary");
    reveal_strlit("oblique");
    reveal_strlit("parallel");
    reveal_strlit("similar");
    assert("contrary"@ =~= seq!['c', 'o', 'n', 't', 'r', 'a', 'r', 'y']);
    assert("oblique"@ =~= seq!['o', 'b', 'l', 'i', 'q', 'u', 'e']);
    assert("parallel"@ =~= seq!['p', 'a', 'r', 'a', 'l', 'l', 'e', 'l']);
    assert("similar"@ =~= seq!['s', 'i', 'm', 'i', 'l', 'a', 'r']);
    let rows = catalog_rows(TheoryDomain::ContrapuntalMotions);
    assert forall|i: int, j: int| 0 <= i < j < rows.len() implies #[trigger] rows[i].0 != #[trigger] rows[j].0 by {}
}

proof fn lemma_non_chord_tones_ids_distinct()
    ensures
        ids_distinct(catalog_rows(TheoryDomain::NonChordTones)),
{
    reveal_strlit("anticipation");
    reveal_strlit("neighbor_tone");
    reveal_strlit("passing_tone");
    reveal_strlit("suspension");
    assert("anticipation"@ =~= seq!['a', 'n', 't', 'i', 'c', 'i', 'p', 'a', 't', 'i', 'o', 'n']);
    assert("neighbor_tone"@ =~= seq!['n', 'e', 'i', 'g', 'h', 'b', 'o', 'r', '_', 't', 'o', 'n', 'e']);
    assert("passing_tone"@ =~= seq!['p', 'a', 's', 's', 'i', 'n', 'g', '_', 't', 'o', 'n', 'e']);
    assert("suspension"@ =~= seq!['s', 'u', 's', 'p', 'e', 'n', 's', 'i', 'o', 'n']);
    let rows = catalog_rows(TheoryDomain::NonChordTones);
    assert forall|i: int, j: int| 0 <= i < j < rows.len() implies #[trigger] rows[i].0 != #[trigger] rows[j].0 by {}
}

proof fn lemma_harmonic_functions_ids_distinct()
    ensures
        ids_distinct(catalog_rows(TheoryDomain::HarmonicFunctions)),
{
    reveal_strlit("dominant");
    reveal_strlit("predominant");
    reveal_strlit("secondary_dominant");
    reveal_strlit("submediant");
    reveal_strlit("tonic");
    assert("dominant"@ =~= seq!['d', 'o', 'm', 'i', 'n', 'a', 'n', 't']);
    assert("predominant"@ =~= seq!['p', 'r', 'e', 'd', 'o', 'm', 'i', 'n', 'a', 'n', 't']);
    assert("secondary_dominant"@ =~= seq!['s', 'e', 'c', 'o', 'n', 'd', 'a', 'r', 'y', '_', 'd', 'o', 'm', 'i', 'n', 'a', 'n', 't']);
    assert("submediant"@ =~= seq!['s', 'u', 'b', 'm', 'e', 'd', 'i', 'a', 'n', 't']);
    assert("tonic"@ =~= seq!['t', 'o', 'n', 'i', 'c']);
    let rows = catalog_rows(TheoryDomain::HarmonicFunctions);
    assert forall|i: int, j: int| 0 <= i < j < rows.len() implies #[trigger] rows[i].0 != #[trigger] rows[j].0 by {}
}

proof fn lemma_set_classes_ids_distinct()
    ensures
        ids_distinct(catalog_rows(TheoryDomain::SetClasses)),
{
    reveal_strlit("016");
    reveal_strlit("0257");
    reveal_strlit("037");
    reveal_strlit("all_interval_tetrachord");
    assert("016"@ =~= seq!['0', '1', '6']);
    assert("0257"@ =~= seq!['0', '2', '5', '7']);
    assert("037"@ =~= seq!['0', '3', '7']);
    assert("all_interval_tetrachord"@ =~= seq!['a', 'l', 'l', '_', 'i', 'n', 't', 'e', 'r', 'v', 'a', 'l', '_', 't', 'e', 't', 'r', 'a', 'c', 'h', 'o', 'r', 'd']);
    let rows = catalog_rows(TheoryDomain::SetClasses);
    assert forall|i: int, j: int| 0 <= i < j < rows.len() implies #[trigger] rows[i].0 != #[trigger] rows[j].0 by {}
}

proof fn lemma_tuning_systems_ids_distinct()
    ensures
        ids_distinct(catalog_rows(TheoryDomain::TuningSystems)),
{
    reveal_strlit("equal_temperament_12");
    reveal_strlit("just_intonation");
    reveal_strlit("pythagorean");
    reveal_strlit("quarter_comma_meantone");
    assert("equal_temperament_12"@ =~= seq!['e', 'q', 'u', 'a', 'l', '_', 't', 'e', 'm', 'p', 'e', 'r', 'a', 'm', 'e', 'n', 't', '_', '1', '2']);
    assert("just_intonation"@ =~= seq!['j', 'u', 's', 't', '_', 'i', 'n', 't', 'o', 'n', 'a', 't', 'i', 'o', 'n']);
    assert("pythagorean"@ =~= seq!['p', 'y', 't', 'h', 'a', 'g', 'o', 'r', 'e', 'a', 'n']);
    assert("quarter_comma_meantone"@ =~= seq!['q', 'u', 'a', 'r', 't', 'e', 'r', '_', 'c', 'o', 'm', 'm', 'a', '_', 'm', 'e', 'a', 'n', 't', 'o', 'n', 'e']);
    let rows = catalog_rows(TheoryDomain::TuningSystems);
    assert forall|i: int, j: int| 0 <= i < j < rows.len() implies #[trigger] rows[i].0 != #[trigger] rows[j].0 by {}
}

proof fn lemma_world_traditions_ids_distinct()
    ensures
        ids_distinct(catalog_rows(TheoryDomain::WorldTraditions)),
{
    reveal_strlit("gamelan_slendro");
    reveal_strlit("hindustani_raga");
    reveal_strlit("maqam");
    reveal_strlit("west_african_timeline");
    assert("gamelan_slendro"@ =~= seq!['g', 'a', 'm', 'e', 'l', 'a', 'n', '_', 's', 'l', 'e', 'n', 'd', 'r', 'o']);
    assert("hindustani_raga"@ =~= seq!['h', 'i', 'n', 'd', 'u', 's', 't', 'a', 'n', 'i', '_', 'r', 'a', 'g', 'a']);
    assert("maqam"@ =~= seq!['m', 'a', 'q', 'a', 'm']);
    assert("west_african_timeline"@ =~= seq!['w', 'e', 's', 't', '_', 'a', 'f', 'r', 'i', 'c', 'a', 'n', '_', 't', 'i', 'm', 'e', 'l', 'i', 'n', 'e']);
    let rows = catalog_rows(TheoryDomain::WorldTraditions);
    assert forall|i: int, j: int| 0 <= i < j < rows.len() implies #[trigger] rows[i].0 != #[trigger] rows[j].0 by {}
}

proof fn lemma_style_eras_ids_distinct()
    ensures
        ids_distinct(catalog_rows(TheoryDomain::StyleEras)),
{
    reveal_strlit("baroque");
    reveal_strlit("classical");
    reveal_strlit("jazz");
    reveal_strlit("popular");
    reveal_strlit("renaissance");
    reveal_strlit("romantic");
    assert("baroque"@ =~= seq!['b', 'a', 'r', 'o', 'q', 'u', 'e']);
    assert("classical"@ =~= seq!['c', 'l', 'a', 's', 's', 'i', 'c', 'a', 'l']);
    assert("jazz"@ =~= seq!['j', 'a', 'z', 'z']);
    assert("popular"@ =~= seq!['p', 'o', 'p', 'u', 'l', 'a', 'r']);
    assert("renaissance"@ =~= seq!['r', 'e', 'n', 'a', 'i', 's', 's', 'a', 'n', 'c', 'e']);
    assert("romantic"@ =~= seq!['r', 'o', 'm', 'a', 'n', 't', 'i', 'c']);
    let rows = catalog_rows(TheoryDomain::StyleEras);
    assert forall|i: int, j: int| 0 <= i < j < rows.len() implies #[trigger] rows[i].0 != #[trigger] rows[j].0 by {}
}

/// Within each domain of the built-in catalog, every entry has its own id, so a lookup by id
/// finds one entry at most.
pub proof fn lemma_catalog_ids_distinct(d: TheoryDomain)
    ensures
        ids_distinct(catalog_rows(d)),
{
    match d {
        TheoryDomain::Intervals => lemma_intervals_ids_distinct(),
        TheoryDomain::Scales => lemma_scales_ids_distinct(),
        TheoryDomain::Modes => lemma_modes_ids_distinct(),
        TheoryDomain::ChordQualities => lemma_chord_qualities_ids_distinct(),
        TheoryDomain::Cadences => lemma_cadences_ids_distinct(),
        TheoryDomain::Meters => lemma_meters_ids_distinct(),
        TheoryDomain::Rhythms => lemma_rhythms_ids_distinct(),
        TheoryDomain::Dynamics => lemma_dynamics_ids_distinct(),
        TheoryDomain::Forms => lemma_forms_ids_distinct(),
        TheoryDomain::Textures => lemma_textures_ids_distinct(),
        TheoryDomain::Ornaments => lemma_ornaments_ids_distinct(),
        TheoryDomain::ContrapuntalMotions => lemma_contrapuntal_motions_ids_distinct(),
        TheoryDomain::NonChordTones => lemma_non_chord_tones_ids_distinct(),
        TheoryDomain::HarmonicFunctions => lemma_harmonic_functions_ids_distinct(),
        TheoryDomain::SetClasses => lemma_set_classes_ids_distinct(),
        TheoryDomain::TuningSystems => lemma_tuning_systems_ids_distinct(),
        TheoryDomain::WorldTraditions => lemma_world_traditions_ids_distinct(),
        TheoryDomain::StyleEras => lemma_style_eras_ids_distinct(),
    }
}

/// The semitones that a pattern's steps add up to; a step that does not parse counts as none.
pub open spec fn steps_total(steps: Seq<Seq<char>>) -> int
    decreases steps.len(),
{
    if steps.len() == 0 {
        0
    } else {
        steps_total(steps.drop_last()) + match crate::analysis::step_semitones(steps.last()) {
            Some(v) => v,
            None => 0,
        }
    }
}

/// The step values that the catalog's scale and mode patterns are written with.
proof fn lemma_step_values()
    ensures
        crate::analysis::step_semitones("1"@) == Some(1int),
        crate::analysis::step_semitones("2"@) == Some(2int),
        crate::analysis::step_semitones("3"@) == Some(3int),
        crate::analysis::step_semitones("4"@) == Some(4int),
        crate::analysis::step_semitones("W"@) == Some(2int),
        crate::analysis::step_semitones("H"@) == Some(1int),
{
    reveal_strlit("W");
    reveal_strlit("H");
    reveal_strlit("1");
    reveal_strlit("2");
    reveal_strlit("3");
    reveal_strlit("4");
    assert("1"@[0] != "W"@[0] && "1"@[0] != "H"@[0]);
    assert("2"@[0] != "W"@[0] && "2"@[0] != "H"@[0]);
    assert("3"@[0] != "W"@[0] && "3"@[0] != "H"@[0]);
    assert("4"@[0] != "W"@[0] && "4"@[0] != "H"@[0]);
    assert("W"@[0] != "H"@[0]);
    assert(crate::text::all_digits("1"@));
    assert(crate::text::all_digits("2"@));
    assert(crate::text::all_digits("3"@));
    assert(crate::text::all_digits("4"@));
    assert(crate::text::digits_value(Seq::<char>::empty()) == 0);
    assert("1"@.drop_last() =~= Seq::<char>::empty());
    assert("1"@.last() == '1');
    assert(crate::text::digits_value("1"@) == 1);
    assert(crate::text::int_literal_value("1"@, true) == Some(1int));
    assert("2"@.drop_last() =~= Seq::<char>::empty());
    assert("2"@.last() == '2');
    assert(crate::text::digits_value("2"@) == 2);
    assert(crate::text::int_literal_value("2"@, true) == Some(2int));
    assert("3"@.drop_last() =~= Seq::<char>::empty());
    assert("3"@.last() == '3');
    assert(crate::text::digits_value("3"@) == 3);
    assert(crate::text::int_literal_value("3"@, true) == Some(3int));
    assert("4"@.drop_last() =~= Seq::<char>::empty());
    assert("4"@.last() == '4');
    assert(crate::text::digits_value("4"@) == 4);
    assert(crate::text::int_literal_value("4"@, true) == Some(4int));
}

#[verifier::spinoff_prover]
#[verifier::rlimit(80)]
proof fn lemma_scales_span_an_octave()
    ensures
        forall|k: int|
            0 <= k < catalog_rows(TheoryDomain::Scales).len() ==> steps_total(
                #[trigger] catalog_rows(TheoryDomain::Scales)[k].1,
            ) == 12,
{
    lemma_step_values();
    reveal_with_fuel(steps_total, 13);
    let rows = catalog_rows(TheoryDomain::Scales);
    assert(steps_total(rows[0].1) == 12);
    assert(steps_total(rows[1].1) == 12);
    assert(steps_total(rows[2].1) == 12);
    assert(steps_total(rows[3].1) == 12);
    assert(steps_total(rows[4].1) == 12);
    assert(steps_total(rows[5].1) == 12);
    assert(steps_total(rows[6].1) == 12);
    assert(steps_total(rows[7].1) == 12);
    assert(steps_total(rows[8].1) == 12);
    assert(steps_total(rows[9].1) == 12);
    assert(steps_total(rows[10].1) == 12);
    assert(steps_total(rows[11].1) == 12);
    assert(steps_total(rows[12].1) == 12);
    assert(steps_total(rows[13].1) == 12);
    assert(steps_total(rows[14].1) == 12);
}

#[verifier::spinoff_prover]
proof fn lemma_modes_span_an_octave()
    ensures
        forall|k: int|
            0 <= k < catalog_rows(TheoryDomain::Modes).len() ==> steps_total(
                #[trigger] catalog_rows(TheoryDomain::Modes)[k].1,
            ) == 12,
{
    lemma_step_values();
    reveal_with_fuel(steps_total, 13);
    let rows = catalog_rows(TheoryDomain::Modes);
    assert(steps_total(rows[0].1) == 12);
    assert(steps_total(rows[1].1) == 12);
    assert(steps_total(rows[2].1) == 12);
    assert(steps_total(rows[3].1) == 12);
    assert(steps_total(rows[4].1) == 12);
    assert(steps_total(rows[5].1) == 12);
    assert(steps_total(rows[6].1) == 12);
}

/// Every scale and mode of the built-in catalog spans one octave: its steps add up to twelve
/// semitones, so walking them from a tonic comes back to the tonic's pitch class.
pub proof fn lemma_catalog_patterns_span_an_octave(d: TheoryDomain, k: int)
    requires
        d == TheoryDomain::Scales || d == TheoryDomain::Modes,
        0 <= k < catalog_rows(d).len(),
    ensures
        steps_total(catalog_rows(d)[k].1) == 12,
{
    lemma_scales_span_an_octave();
    lemma_modes_span_an_octave();
}

/// The sizes that the catalog's larger interval patterns are written with.
proof fn lemma_larger_step_values()
    ensures
        crate::analysis::step_semitones("5"@) == Some(5int),
        crate::analysis::step_semitones("6"@) == Some(6int),
        crate::analysis::step_semitones("7"@) == Some(7int),
        crate::analysis::step_semitones("8"@) == Some(8int),
        crate::analysis::step_semitones("9"@) == Some(9int),
        crate::analysis::step_semitones("10"@) == Some(10int),
        crate::analysis::step_semitones("11"@) == Some(11int),
        crate::analysis::step_semitones("12"@) == Some(12int),
{
    reveal_strlit("W");
    reveal_strlit("H");
    assert("W"@ =~= seq!['W']);
    assert("H"@ =~= seq!['H']);
    assert(crate::text::digits_value(Seq::<char>::empty()) == 0);
    assert(crate::text::digits_value(seq!['1']) == 1) by {
        assert(seq!['1'].drop_last() =~= Seq::<char>::empty());
    }
    reveal_strlit("5");
    assert("5"@ =~= seq!['5']);
    assert("5"@.drop_last() =~= Seq::<char>::empty());
    assert(crate::text::all_digits("5"@));
    assert(crate::text::digits_value("5"@) == 5);
    reveal_strlit("6");
    assert("6"@ =~= seq!['6']);
    assert("6"@.drop_last() =~= Seq::<char>::empty());
    assert(crate::text::all_digits("6"@));
    assert(crate::text::digits_value("6"@) == 6);
    reveal_strlit("7");
    assert("7"@ =~= seq!['7']);
    assert("7"@.drop_last() =~= Seq::<char>::empty());
    assert(crate::text::all_digits("7"@));
    assert(crate::text::digits_value("7"@) == 7);
    reveal_strlit("8");
    assert("8"@ =~= seq!['8']);
    assert("8"@.drop_last() =~= Seq::<char>::empty());
    assert(crate::text::all_digits("8"@));
    assert(crate::text::digits_value("8"@) == 8);
    reveal_strlit("9");
    assert("9"@ =~= seq!['9']);
    assert("9"@.drop_last() =~= Seq::<char>::empty());
    assert(crate::text::all_digits("9"@));
    assert(crate::text::digits_value("9"@) == 9);
    reveal_strlit("10");
    assert("10"@ =~= seq!['1', '0']);
    assert("10"@.drop_last() =~= seq!['1']);
    assert(crate::text::all_digits("10"@));
    assert(crate::text::digits_value("10"@) == 10);
    reveal_strlit("11");
    assert("11"@ =~= seq!['1', '1']);
    assert("11"@.drop_last() =~= seq!['1']);
    assert(crate::text::all_digits("11"@));
    assert(crate::text::digits_value("11"@) == 11);
    reveal_strlit("12");
    assert("12"@ =~= seq!['1', '2']);
    assert("12"@.drop_last() =~= seq!['1']);
    assert(crate::text::all_digits("12"@));
    assert(crate::text::digits_value("12"@) == 12);
}

/// Every interval of the catalog but the unison names a size that pitch arithmetic reads, and
/// it reads as the catalog's size for it (a major sixth is nine semitones, a minor sixth
/// eight).
pub proof fn lemma_interval_names_read_as_catalog_sizes(k: int)
    requires
        1 <= k < catalog_rows(TheoryDomain::Intervals).len(),
    ensures
        catalog_rows(TheoryDomain::Intervals)[k].1.len() == 1,
        crate::music::interval_from_text(catalog_rows(TheoryDomain::Intervals)[k].0)
            == crate::analysis::step_semitones(catalog_rows(TheoryDomain::Intervals)[k].1[0]),
        crate::music::interval_from_text(catalog_rows(TheoryDomain::Intervals)[k].0) is Some,
{
    lemma_step_values();
    lemma_larger_step_values();
    reveal_strlit("P1");
    assert("P1"@ =~= seq!['P', '1']);
    reveal_strlit("m2");
    assert("m2"@ =~= seq!['m', '2']);
    reveal_strlit("M2");
    assert("M2"@ =~= seq!['M', '2']);
    reveal_strlit("m3");
    assert("m3"@ =~= seq!['m', '3']);
    reveal_strlit("M3");
    assert("M3"@ =~= seq!['M', '3']);
    reveal_strlit("P4");
    assert("P4"@ =~= seq!['P', '4']);
    reveal_strlit("TT");
    assert("TT"@ =~= seq!['T', 'T']);
    reveal_strlit("P5");
    assert("P5"@ =~= seq!['P', '5']);
    reveal_strlit("m6");
    assert("m6"@ =~= seq!['m', '6']);
    reveal_strlit("M6");
    assert("M6"@ =~= seq!['M', '6']);
    reveal_strlit("m7");
    assert("m7"@ =~= seq!['m', '7']);
    reveal_strlit("M7");
    assert("M7"@ =~= seq!['M', '7']);
    reveal_strlit("P8");
    assert("P8"@ =~= seq!['P', '8']);
}

/// Distinct interval names read as distinct sizes: a size has one name.
pub proof fn lemma_interval_names_distinct(a: Seq<char>, b: Seq<char>)
    requires
        crate::music::interval_from_text(a) is Some,
        crate::music::interval_from_text(a) == crate::music::interval_from_text(b),
    ensures
        a == b,
{
}

/// An entry by its id and its pattern.
pub open spec fn entry_row(e: TheoryEntry) -> (Seq<char>, Seq<Seq<char>>) {
    (e.id@, e.pattern@.map_values(|p: &'static str| p@))
}

/// An entry by its name and its description.
pub open spec fn entry_text(e: TheoryEntry) -> (Seq<char>, Seq<char>) {
    (e.name@, e.description@)
}

/// The names and descriptions of the built-in catalog's entries, in order.
pub open spec fn catalog_texts(d: TheoryDomain) -> Seq<(Seq<char>, Seq<char>)> {
    match d {
        TheoryDomain::Intervals => seq![
            ("perfect unison"@, "zero-semitone interval"@),
            ("minor second"@, "one-semitone interval"@),
            ("major second"@, "two-semitone interval"@),
            ("minor third"@, "three-semitone interval"@),
            ("major third"@, "four-semitone interval"@),
            ("perfect fourth"@, "five-semitone interval"@),
            ("tritone"@, "six-semitone interval"@),
            ("perfect fifth"@, "seven-semitone interval"@),
            ("minor sixth"@, "eight-semitone interval"@),
            ("major sixth"@, "nine-semitone interval"@),
            ("minor seventh"@, "ten-semitone interval"@),
            ("major seventh"@, "eleven-semitone interval"@),
            ("octave"@, "twelve-semitone interval"@),
        ],
        TheoryDomain::Scales => seq![
            ("major scale"@, "diatonic major scale"@),
            ("natural minor scale"@, "diatonic minor scale"@),
            ("harmonic minor scale"@, "minor scale with raised seventh degree"@),
            ("melodic minor scale"@, "ascending jazz melodic minor collection"@),
            ("major pentatonic scale"@, "five-note major pentatonic collection"@),
            ("minor pentatonic scale"@, "five-note minor pentatonic collection"@),
            ("blues scale"@, "minor pentatonic with chromatic blue note"@),
            ("whole-tone scale"@, "symmetric six-note whole-step collection"@),
            ("octatonic whole-half scale"@, "symmetric alternating whole-half diminished collection"@),
            ("octatonic half-whole scale"@, "symmetric alternating half-whole diminished collection"@),
            ("chromatic scale"@, "twelve-tone equal-tempered aggregate"@),
            ("Hirajoshi scale"@, "Japanese pentatonic tuning collection"@),
            ("In-sen scale"@, "Japanese pentatonic scale with semitone inflection"@),
            ("Pelog subset"@, "representative gamelan pelog-derived scalar subset"@),
            ("Slendro approximation"@, "five-note near-equidistant gamelan slendro approximation"@),
        ],
        TheoryDomain::Modes => seq![
            ("Ionian"@, "major mode"@),
            ("Dorian"@, "minor mode with raised sixth"@),
            ("Phrygian"@, "minor mode with lowered second"@),
            ("Lydian"@, "major mode with raised fourth"@),
            ("Mixolydian"@, "major mode with lowered seventh"@),
            ("Aeolian"@, "natural minor mode"@),
            ("Locrian"@, "diminished mode"@),
        ],
        TheoryDomain::ChordQualities => seq![
            ("major triad"@, "root, major third, perfect fifth"@),
            ("minor triad"@, "root, minor third, perfect fifth"@),
            ("diminished triad"@, "root, minor third, diminished fifth"@),
            ("augmented triad"@, "root, major third, augmented fifth"@),
            ("dominant seventh"@, "major triad with minor seventh"@),
            ("major seventh"@, "major triad with major seventh"@),
            ("minor seventh"@, "minor triad with minor seventh"@),
        ],
        TheoryDomain::Cadences => seq![
            ("authentic cadence"@, "dominant to tonic"@),
            ("plagal cadence"@, "subdominant to tonic"@),
            ("half cadence"@, "phrase ending on dominant"@),
            ("deceptive cadence"@, "dominant to submediant"@),
        ],
        TheoryDomain::Meters => seq![
            ("simple duple"@, "two quarter-note beats"@),
            ("simple triple"@, "three quarter-note beats"@),
            ("simple quadruple"@, "four quarter-note beats"@),
            ("compound duple"@, "two dotted-quarter beats"@),
        ],
        TheoryDomain::Rhythms => seq![
            ("syncopation"@, "accenting weak beats or offbeats"@),
            ("hemiola"@, "three-against-two metric reinterpretation"@),
            ("swing eighths"@, "uneven subdivision with long-short feel"@),
            ("ostinato"@, "persistently repeated rhythmic or melodic cell"@),
        ],
        TheoryDomain::Dynamics => seq![
            ("pianississimo"@, "extremely soft dynamic"@),
            ("pianissimo"@, "very soft dynamic"@),
            ("piano"@, "soft dynamic"@),
            ("mezzo piano"@, "moderately soft dynamic"@),
            ("mezzo forte"@, "moderately loud dynamic"@),
            ("forte"@, "loud dynamic"@),
            ("fortissimo"@, "very loud dynamic"@),
            ("fortississimo"@, "extremely loud dynamic"@),
            ("sforzando"@, "sudden forceful accent"@),
        ],
        TheoryDomain::Forms => seq![
            ("binary form"@, "two-part form"@),
            ("ternary form"@, "return form with contrasting middle"@),
            ("sonata form"@, "exposition, development, and recapitulation"@),
            ("rondo form"@, "recurring refrain alternating with episodes"@),
            ("twelve-bar blues"@, "twelve-measure tonic/subdominant/dominant cycle"@),
        ],
        TheoryDomain::Textures => seq![
            ("monophony"@, "single melodic line"@),
            ("homophony"@, "melody with chordal support"@),
            ("polyphony"@, "multiple independent voices"@),
            ("heterophony"@, "simultaneous variants of one melody"@),
        ],
        TheoryDomain::Ornaments => seq![
            ("trill"@, "rapid alternation with neighboring pitch"@),
            ("mordent"@, "single rapid neighbor-note turn"@),
            ("turn"@, "upper and lower neighbor ornament"@),
            ("appoggiatura"@, "accented dissonance resolving by step"@),
            ("staccato"@, "short detached articulation"@),
            ("tenuto"@, "sustained articulation held near full value"@),
            ("accent"@, "emphasized attack articulation"@),
            ("legato"@, "smooth connected articulation"@),
        ],
        TheoryDomain::ContrapuntalMotions => seq![
            ("parallel motion"@, "voices move in the same direction by the same interval"@),
            ("similar motion"@, "voices move in the same direction by different intervals"@),
            ("contrary motion"@, "voices move in opposite directions"@),
            ("oblique motion"@, "one voice holds while another moves"@),
        ],
        TheoryDomain::NonChordTones => seq![
            ("passing tone"@, "stepwise non-chord tone between chord tones"@),
            ("neighbor tone"@, "step away from and back to the same chord tone"@),
            ("suspension"@, "prepared dissonance resolving downward by step"@),
            ("anticipation"@, "early arrival of a pitch from the following harmony"@),
        ],
        TheoryDomain::HarmonicFunctions => seq![
            ("tonic function"@, "stability and resolution center"@),
            ("predominant function"@, "prepares dominant harmony"@),
            ("dominant function"@, "creates directed tension toward tonic"@),
            ("secondary dominant"@, "temporary dominant of a non-tonic goal"@),
            ("submediant function"@, "relative-minor substitute and deceptive-resolution goal"@),
        ],
        TheoryDomain::SetClasses => seq![
            ("atonal trichord 016"@, "semitone plus tritone set class"@),
            ("minor/major triad set class"@, "common triadic pitch-class set"@),
            ("quartal tetrachord"@, "stacked fourth-related set"@),
            ("all-interval tetrachord"@, "four-note set containing every interval class"@),
        ],
        TheoryDomain::TuningSystems => seq![
            ("12-tone equal temperament"@, "octave divided into twelve equal semitone steps"@),
            ("just intonation"@, "intervals tuned by small integer frequency ratios"@),
            ("Pythagorean tuning"@, "tuning generated from stacked pure fifths"@),
            ("quarter-comma meantone"@, "temperament favoring pure major thirds"@),
        ],
        TheoryDomain::WorldTraditions => seq![
            ("Hindustani raga"@, "melodic framework with ascent, descent, and emphasized tones"@),
            ("Arabic maqam"@, "modal system built from jins and characteristic melodic behavior"@),
            ("gamelan slendro"@, "five-tone Indonesian tuning and ensemble tradition"@),
            ("West African timeline pattern"@, "cyclic reference rhythm organizing ensemble parts"@),
        ],
        TheoryDomain::StyleEras => seq![
            ("Renaissance"@, "modal counterpoint and consonance treatment"@),
            ("Baroque"@, "functional harmony, basso continuo, sequences"@),
            ("Classical"@, "periodic phrasing and tonal syntax"@),
            ("Romantic"@, "chromatic harmony and expanded form"@),
            ("Jazz"@, "extended harmony and swing vocabulary"@),
            ("Popular"@, "loop-based harmonic and rhythmic idioms"@),
        ],
    }
}

/// The built-in theory catalog.
#[verifier::spinoff_prover]
pub fn theory_catalog() -> (r: TheoryCatalog)
    ensures
        r.wf(),
        forall|d: TheoryDomain|
            #![trigger r.entries_spec(d)]
            r.entries_spec(d).map_values(|e: TheoryEntry| entry_row(e)) == catalog_rows(d),
        forall|d: TheoryDomain|
            #![trigger r.entries_spec(d)]
            r.entries_spec(d).map_values(|e: TheoryEntry| entry_text(e)) == catalog_texts(d),
{
    let r = TheoryCatalog {
        intervals: vec![
            TheoryEntry {
                id: "P1",
                name: "perfect unison",
                description: "zero-semitone interval",
                pattern: vec!["0"],
            },
            TheoryEntry {
                id: "m2",
                name: "minor second",
                description: "one-semitone interval",
                pattern: vec!["1"],
            },
            TheoryEntry {
                id: "M2",
                name: "major second",
                description: "two-semitone interval",
                pattern: vec!["2"],
            },
            TheoryEntry {
                id: "m3",
                name: "minor third",
                description: "three-semitone interval",
                pattern: vec!["3"],
            },
            TheoryEntry {
                id: "M3",
                name: "major third",
                description: "four-semitone interval",
                pattern: vec!["4"],
            },
            TheoryEntry {
                id: "P4",
                name: "perfect fourth",
                description: "five-semitone interval",
                pattern: vec!["5"],
            },
            TheoryEntry {
                id: "TT",
                name: "tritone",
                description: "six-semitone interval",
                pattern: vec!["6"],
            },
            TheoryEntry {
                id: "P5",
                name: "perfect fifth",
                description: "seven-semitone interval",
                pattern: vec!["7"],
            },
            TheoryEntry {
                id: "m6",
                name: "minor sixth",
                description: "eight-semitone interval",
                pattern: vec!["8"],
            },
            TheoryEntry {
                id: "M6",
                name: "major sixth",
                description: "nine-semitone interval",
                pattern: vec!["9"],
            },
            TheoryEntry {
                id: "m7",
                name: "minor seventh",
                description: "ten-semitone interval",
                pattern: vec!["10"],
            },
            TheoryEntry {
                id: "M7",
                name: "major seventh",
                description: "eleven-semitone interval",
                pattern: vec!["11"],
            },
            TheoryEntry {
                id: "P8",
                name: "octave",
                description: "twelve-semitone interval",
                pattern: vec!["12"],
            },
        ],
        scales: vec![
            TheoryEntry {
                id: "major",
                name: "major scale",
                description: "diatonic major scale",
                pattern: vec!["2", "2", "1", "2", "2", "2", "1"],
            },
            TheoryEntry {
                id: "natural_minor",
                name: "natural minor scale",
                description: "diatonic minor scale",
                pattern: vec!["2", "1", "2", "2", "1", "2", "2"],
            },
            TheoryEntry {
                id: "harmonic_minor",
                name: "harmonic minor scale",
                description: "minor scale with raised seventh degree",
                pattern: vec!["2", "1", "2", "2", "1", "3", "1"],
            },
            TheoryEntry {
                id: "melodic_minor",
                name: "melodic minor scale",
                description: "ascending jazz melodic minor collection",
                pattern: vec!["2", "1", "2", "2", "2", "2", "1"],
            },
            TheoryEntry {
                id: "major_pentatonic",
                name: "major pentatonic scale",
                description: "five-note major pentatonic collection",
                pattern: vec!["2", "2", "3", "2", "3"],
            },
            TheoryEntry {
                id: "minor_pentatonic",
                name: "minor pentatonic scale",
                description: "five-note minor pentatonic collection",
                pattern: vec!["3", "2", "2", "3", "2"],
            },
            TheoryEntry {
                id: "blues",
                name: "blues scale",
                description: "minor pentatonic with chromatic blue note",
                pattern: vec!["3", "2", "1", "1", "3", "2"],
            },
            TheoryEntry {
                id: "whole_tone",
                name: "whole-tone scale",
                description: "symmetric six-note whole-step collection",
                pattern: vec!["2", "2", "2", "2", "2", "2"],
            },
            TheoryEntry {
                id: "octatonic_wh",
                name: "octatonic whole-half scale",
                description: "symmetric alternating whole-half diminished collection",
                pattern: vec!["2", "1", "2", "1", "2", "1", "2", "1"],
            },
            TheoryEntry {
                id: "octatonic_hw",
                name: "octatonic half-whole scale",
                description: "symmetric alternating half-whole diminished collection",
                pattern: vec!["1", "2", "1", "2", "1", "2", "1", "2"],
            },
            TheoryEntry {
                id: "chromatic",
                name: "chromatic scale",
                description: "twelve-tone equal-tempered aggregate",
                pattern: vec!["1", "1", "1", "1", "1", "1", "1", "1", "1", "1", "1", "1"],
            },
            TheoryEntry {
                id: "hirajoshi",
                name: "Hirajoshi scale",
                description: "Japanese pentatonic tuning collection",
                pattern: vec!["2", "1", "4", "1", "4"],
            },
            TheoryEntry {
                id: "in_sen",
                name: "In-sen scale",
                description: "Japanese pentatonic scale with semitone inflection",
                pattern: vec!["1", "4", "2", "3", "2"],
            },
            TheoryEntry {
                id: "pelog",
                name: "Pelog subset",
                description: "representative gamelan pelog-derived scalar subset",
                pattern: vec!["1", "2", "4", "1", "4"],
            },
            TheoryEntry {
                id: "slendro",
                name: "Slendro approximation",
                description: "five-note near-equidistant gamelan slendro approximation",
                pattern: vec!["2", "2", "3", "2", "3"],
            },
        ],
        modes: vec![
            TheoryEntry {
                id: "ionian",
                name: "Ionian",
                description: "major mode",
                pattern: vec!["W", "W", "H", "W", "W", "W", "H"],
            },
            TheoryEntry {
                id: "dorian",
                name: "Dorian",
                description: "minor mode with raised sixth",
                pattern: vec!["W", "H", "W", "W", "W", "H", "W"],
            },
            TheoryEntry {
                id: "phrygian",
                name: "Phrygian",
                description: "minor mode with lowered second",
                pattern: vec!["H", "W", "W", "W", "H", "W", "W"],
            },
            TheoryEntry {
                id: "lydian",
                name: "Lydian",
                description: "major mode with raised fourth",
                pattern: vec!["W", "W", "W", "H", "W", "W", "H"],
            },
            TheoryEntry {
                id: "mixolydian",
                name: "Mixolydian",
                description: "major mode with lowered seventh",
                pattern: vec!["W", "W", "H", "W", "W", "H", "W"],
            },
            TheoryEntry {
                id: "aeolian",
                name: "Aeolian",
                description: "natural minor mode",
                pattern: vec!["W", "H", "W", "W", "H", "W", "W"],
            },
            TheoryEntry {
                id: "locrian",
                name: "Locrian",
                description: "diminished mode",
                pattern: vec!["H", "W", "W", "H", "W", "W", "W"],
            },
        ],
        chord_qualities: vec![
            TheoryEntry {
                id: "major",
                name: "major triad",
                description: "root, major third, perfect fifth",
                pattern: vec!["0", "4", "7"],
            },
            TheoryEntry {
                id: "minor",
                name: "minor triad",
                description: "root, minor third, perfect fifth",
                pattern: vec!["0", "3", "7"],
            },
            TheoryEntry {
                id: "diminished",
                name: "diminished triad",
                description: "root, minor third, diminished fifth",
                pattern: vec!["0", "3", "6"],
            },
            TheoryEntry {
                id: "augmented",
                name: "augmented triad",
                description: "root, major third, augmented fifth",
                pattern: vec!["0", "4", "8"],
            },
            TheoryEntry {
                id: "dominant7",
                name: "dominant seventh",
                description: "major triad with minor seventh",
                pattern: vec!["0", "4", "7", "10"],
            },
            TheoryEntry {
                id: "major7",
                name: "major seventh",
                description: "major triad with major seventh",
                pattern: vec!["0", "4", "7", "11"],
            },
            TheoryEntry {
                id: "minor7",
                name: "minor seventh",
                description: "minor triad with minor seventh",
                pattern: vec!["0", "3", "7", "10"],
            },
        ],
        cadences: vec![
            TheoryEntry {
                id: "authentic",
                name: "authentic cadence",
                description: "dominant to tonic",
                pattern: vec!["V", "I"],
            },
            TheoryEntry {
                id: "plagal",
                name: "plagal cadence",
                description: "subdominant to tonic",
                pattern: vec!["IV", "I"],
            },
            TheoryEntry {
                id: "half",
                name: "half cadence",
                description: "phrase ending on dominant",
                pattern: vec!["*", "V"],
            },
            TheoryEntry {
                id: "deceptive",
                name: "deceptive cadence",
                description: "dominant to submediant",
                pattern: vec!["V", "vi"],
            },
        ],
        meters: vec![
            TheoryEntry {
                id: "2/4",
                name: "simple duple",
                description: "two quarter-note beats",
                pattern: vec!["strong", "weak"],
            },
            TheoryEntry {
                id: "3/4",
                name: "simple triple",
                description: "three quarter-note beats",
                pattern: vec!["strong", "weak", "weak"],
            },
            TheoryEntry {
                id: "4/4",
                name: "simple quadruple",
                description: "four quarter-note beats",
                pattern: vec!["strong", "weak", "medium", "weak"],
            },
            TheoryEntry {
                id: "6/8",
                name: "compound duple",
                description: "two dotted-quarter beats",
                pattern: vec!["strong", "weak", "weak", "medium", "weak", "weak"],
            },
        ],
        rhythms: vec![
            TheoryEntry {
                id: "syncopation",
                name: "syncopation",
                description: "accenting weak beats or offbeats",
                pattern: vec!["weak_accent", "offbeat"],
            },
            TheoryEntry {
                id: "hemiola",
                name: "hemiola",
                description: "three-against-two metric reinterpretation",
                pattern: vec!["3:2"],
            },
            TheoryEntry {
                id: "swing",
                name: "swing eighths",
                description: "uneven subdivision with long-short feel",
                pattern: vec!["2:1", "triplet_subdivision"],
            },
            TheoryEntry {
                id: "ostinato",
                name: "ostinato",
                description: "persistently repeated rhythmic or melodic cell",
                pattern: vec!["repeat", "cell"],
            },
        ],
        dynamics: vec![
            TheoryEntry {
                id: "ppp",
                name: "pianississimo",
                description: "extremely soft dynamic",
                pattern: vec!["16"],
            },
            TheoryEntry {
                id: "pp",
                name: "pianissimo",
                description: "very soft dynamic",
                pattern: vec!["32"],
            },
            TheoryEntry {
                id: "p",
                name: "piano",
                description: "soft dynamic",
                pattern: vec!["48"],
            },
            TheoryEntry {
                id: "mp",
                name: "mezzo piano",
                description: "moderately soft dynamic",
                pattern: vec!["64"],
            },
            TheoryEntry {
                id: "mf",
                name: "mezzo forte",
                description: "moderately loud dynamic",
                pattern: vec!["80"],
            },
            TheoryEntry {
                id: "f",
                name: "forte",
                description: "loud dynamic",
                pattern: vec!["96"],
            },
            TheoryEntry {
                id: "ff",
                name: "fortissimo",
                description: "very loud dynamic",
                pattern: vec!["112"],
            },
            TheoryEntry {
                id: "fff",
                name: "fortississimo",
                description: "extremely loud dynamic",
                pattern: vec!["127"],
            },
            TheoryEntry {
                id: "sfz",
                name: "sforzando",
                description: "sudden forceful accent",
                pattern: vec!["118"],
            },
        ],
        forms: vec![
            TheoryEntry {
                id: "binary",
                name: "binary form",
                description: "two-part form",
                pattern: vec!["A", "B"],
            },
            TheoryEntry {
                id: "ternary",
                name: "ternary form",
                description: "return form with contrasting middle",
                pattern: vec!["A", "B", "A"],
            },
            TheoryEntry {
                id: "sonata",
                name: "sonata form",
                description: "exposition, development, and recapitulation",
                pattern: vec!["exposition", "development", "recapitulation"],
            },
            TheoryEntry {
                id: "rondo",
                name: "rondo form",
                description: "recurring refrain alternating with episodes",
                pattern: vec!["A", "B", "A", "C", "A"],
            },
            TheoryEntry {
                id: "twelve_bar_blues",
                name: "twelve-bar blues",
                description: "twelve-measure tonic/subdominant/dominant cycle",
                pattern: vec![
                    "I", "I", "I", "I", "IV", "IV", "I", "I", "V", "IV", "I", "V",
                ],
            },
        ],
        textures: vec![
            TheoryEntry {
                id: "monophony",
                name: "monophony",
                description: "single melodic line",
                pattern: vec!["one_voice"],
            },
            TheoryEntry {
                id: "homophony",
                name: "homophony",
                description: "melody with chordal support",
                pattern: vec!["melody", "accompaniment"],
            },
            TheoryEntry {
                id: "polyphony",
                name: "polyphony",
                description: "multiple independent voices",
                pattern: vec!["independent_voices"],
            },
            TheoryEntry {
                id: "heterophony",
                name: "heterophony",
                description: "simultaneous variants of one melody",
                pattern: vec!["shared_melody", "variation"],
            },
        ],
        ornaments: vec![
            TheoryEntry {
                id: "trill",
                name: "trill",
                description: "rapid alternation with neighboring pitch",
                pattern: vec!["upper_neighbor", "main_note"],
            },
            TheoryEntry {
                id: "mordent",
                name: "mordent",
                description: "single rapid neighbor-note turn",
                pattern: vec!["main", "neighbor", "main"],
            },
            TheoryEntry {
                id: "turn",
                name: "turn",
                description: "upper and lower neighbor ornament",
                pattern: vec!["upper", "main", "lower", "main"],
            },
            TheoryEntry {
                id: "appoggiatura",
                name: "appoggiatura",
                description: "accented dissonance resolving by step",
                pattern: vec!["accented_dissonance", "step_resolution"],
            },
            TheoryEntry {
                id: "staccato",
                name: "staccato",
                description: "short detached articulation",
                pattern: vec!["duration:50"],
            },
            TheoryEntry {
                id: "tenuto",
                name: "tenuto",
                description: "sustained articulation held near full value",
                pattern: vec!["duration:100"],
            },
            TheoryEntry {
                id: "accent",
                name: "accent",
                description: "emphasized attack articulation",
                pattern: vec!["velocity:+16"],
            },
            TheoryEntry {
                id: "legato",
                name: "legato",
                description: "smooth connected articulation",
                pattern: vec!["duration:100"],
            },
        ],
        contrapuntal_motions: vec![
            TheoryEntry {
                id: "parallel",
                name: "parallel motion",
                description: "voices move in the same direction by the same interval",
                pattern: vec!["same_direction", "same_interval"],
            },
            TheoryEntry {
                id: "similar",
                name: "similar motion",
                description: "voices move in the same direction by different intervals",
                pattern: vec!["same_direction", "different_interval"],
            },
            TheoryEntry {
                id: "contrary",
                name: "contrary motion",
                description: "voices move in opposite directions",
                pattern: vec!["opposite_direction"],
            },
            TheoryEntry {
                id: "oblique",
                name: "oblique motion",
                description: "one voice holds while another moves",
                pattern: vec!["held_voice", "moving_voice"],
            },
        ],
        non_chord_tones: vec![
            TheoryEntry {
                id: "passing_tone",
                name: "passing tone",
                description: "stepwise non-chord tone between chord tones",
                pattern: vec!["chord", "step", "non_chord", "step", "chord"],
            },
            TheoryEntry {
                id: "neighbor_tone",
                name: "neighbor tone",
                description: "step away from and back to the same chord tone",
                pattern: vec!["chord", "step", "non_chord", "step_back", "chord"],
            },
            TheoryEntry {
                id: "suspension",
                name: "suspension",
                description: "prepared dissonance resolving downward by step",
                pattern: vec!["preparation", "suspension", "resolution"],
            },
            TheoryEntry {
                id: "anticipation",
                name: "anticipation",
                description: "early arrival of a pitch from the following harmony",
                pattern: vec!["early_next_chord_tone"],
            },
        ],
        harmonic_functions: vec![
            TheoryEntry {
                id: "tonic",
                name: "tonic function",
                description: "stability and resolution center",
                pattern: vec!["I", "vi"],
            },
            TheoryEntry {
                id: "predominant",
                name: "predominant function",
                description: "prepares dominant harmony",
                pattern: vec!["ii", "IV"],
            },
            TheoryEntry {
                id: "dominant",
                name: "dominant function",
                description: "creates directed tension toward tonic",
                pattern: vec!["V", "vii°"],
            },
            TheoryEntry {
                id: "secondary_dominant",
                name: "secondary dominant",
                description: "temporary dominant of a non-tonic goal",
                pattern: vec!["V/x", "x"],
            },
            TheoryEntry {
                id: "submediant",
                name: "submediant function",
                description: "relative-minor substitute and deceptive-resolution goal",
                pattern: vec!["vi"],
            },
        ],
        set_classes: vec![
            TheoryEntry {
                id: "016",
                name: "atonal trichord 016",
                description: "semitone plus tritone set class",
                pattern: vec!["0", "1", "6"],
            },
            TheoryEntry {
                id: "037",
                name: "minor/major triad set class",
                description: "common triadic pitch-class set",
                pattern: vec!["0", "3", "7"],
            },
            TheoryEntry {
                id: "0257",
                name: "quartal tetrachord",
                description: "stacked fourth-related set",
                pattern: vec!["0", "2", "5", "7"],
            },
            TheoryEntry {
                id: "all_interval_tetrachord",
                name: "all-interval tetrachord",
                description: "four-note set containing every interval class",
                pattern: vec!["0", "1", "4", "6"],
            },
        ],
        tuning_systems: vec![
            TheoryEntry {
                id: "equal_temperament_12",
                name: "12-tone equal temperament",
                description: "octave divided into twelve equal semitone steps",
                pattern: vec!["12-EDO"],
            },
            TheoryEntry {
                id: "just_intonation",
                name: "just intonation",
                description: "intervals tuned by small integer frequency ratios",
                pattern: vec!["3:2", "5:4", "6:5"],
            },
            TheoryEntry {
                id: "pythagorean",
                name: "Pythagorean tuning",
                description: "tuning generated from stacked pure fifths",
                pattern: vec!["3:2_cycle"],
            },
            TheoryEntry {
                id: "quarter_comma_meantone",
                name: "quarter-comma meantone",
                description: "temperament favoring pure major thirds",
                pattern: vec!["meantone", "5:4"],
            },
        ],
        world_traditions: vec![
            TheoryEntry {
                id: "hindustani_raga",
                name: "Hindustani raga",
                description: "melodic framework with ascent, descent, and emphasized tones",
                pattern: vec!["aroha", "avaroha", "vadi", "samvadi"],
            },
            TheoryEntry {
                id: "maqam",
                name: "Arabic maqam",
                description: "modal system built from jins and characteristic melodic behavior",
                pattern: vec!["jins", "sayr"],
            },
            TheoryEntry {
                id: "gamelan_slendro",
                name: "gamelan slendro",
                description: "five-tone Indonesian tuning and ensemble tradition",
                pattern: vec!["five_tones", "cyclic_colotomic_form"],
            },
            TheoryEntry {
                id: "west_african_timeline",
                name: "West African timeline pattern",
                description: "cyclic reference rhythm organizing ensemble parts",
                pattern: vec!["cycle", "timeline", "cross_rhythm"],
            },
        ],
        style_eras: vec![
            TheoryEntry {
                id: "renaissance",
                name: "Renaissance",
                description: "modal counterpoint and consonance treatment",
                pattern: vec!["modes", "imitative_counterpoint"],
            },
            TheoryEntry {
                id: "baroque",
                name: "Baroque",
                description: "functional harmony, basso continuo, sequences",
                pattern: vec!["functional_harmony", "counterpoint"],
            },
            TheoryEntry {
                id: "classical",
                name: "Classical",
                description: "periodic phrasing and tonal syntax",
                pattern: vec!["tonal_harmony", "periodic_phrase"],
            },
            TheoryEntry {
                id: "romantic",
                name: "Romantic",
                description: "chromatic harmony and expanded form",
                pattern: vec!["chromaticism", "expanded_tonality"],
            },
            TheoryEntry {
                id: "jazz",
                name: "Jazz",
                description: "extended harmony and swing vocabulary",
                pattern: vec!["seventh_chords", "extensions", "ii_V_I"],
            },
            TheoryEntry {
                id: "popular",
                name: "Popular",
                description: "loop-based harmonic and rhythmic idioms",
                pattern: vec!["diatonic_loops", "backbeat"],
            },
        ],
    };
    proof {
        assert(r.intervals@.map_values(|e: TheoryEntry| entry_row(e)) =~~= catalog_rows(TheoryDomain::Intervals));
        assert(r.scales@.map_values(|e: TheoryEntry| entry_row(e)) =~~= catalog_rows(TheoryDomain::Scales));
        assert(r.modes@.map_values(|e: TheoryEntry| entry_row(e)) =~~= catalog_rows(TheoryDomain::Modes));
        assert(r.chord_qualities@.map_values(|e: TheoryEntry| entry_row(e)) =~~= catalog_rows(TheoryDomain::ChordQualities));
        assert(r.cadences@.map_values(|e: TheoryEntry| entry_row(e)) =~~= catalog_rows(TheoryDomain::Cadences));
        assert(r.meters@.map_values(|e: TheoryEntry| entry_row(e)) =~~= catalog_rows(TheoryDomain::Meters));
        assert(r.rhythms@.map_values(|e: TheoryEntry| entry_row(e)) =~~= catalog_rows(TheoryDomain::Rhythms));
        assert(r.dynamics@.map_values(|e: TheoryEntry| entry_row(e)) =~~= catalog_rows(TheoryDomain::Dynamics));
        assert(r.forms@.map_values(|e: TheoryEntry| entry_row(e)) =~~= catalog_rows(TheoryDomain::Forms));
        assert(r.textures@.map_values(|e: TheoryEntry| entry_row(e)) =~~= catalog_rows(TheoryDomain::Textures));
        assert(r.ornaments@.map_values(|e: TheoryEntry| entry_row(e)) =~~= catalog_rows(TheoryDomain::Ornaments));
        assert(r.contrapuntal_motions@.map_values(|e: TheoryEntry| entry_row(e)) =~~= catalog_rows(TheoryDomain::ContrapuntalMotions));
        assert(r.non_chord_tones@.map_values(|e: TheoryEntry| entry_row(e)) =~~= catalog_rows(TheoryDomain::NonChordTones));
        assert(r.harmonic_functions@.map_values(|e: TheoryEntry| entry_row(e)) =~~= catalog_rows(TheoryDomain::HarmonicFunctions));
        assert(r.set_classes@.map_values(|e: TheoryEntry| entry_row(e)) =~~= catalog_rows(TheoryDomain::SetClasses));
        assert(r.tuning_systems@.map_values(|e: TheoryEntry| entry_row(e)) =~~= catalog_rows(TheoryDomain::TuningSystems));
        assert(r.world_traditions@.map_values(|e: TheoryEntry| entry_row(e)) =~~= catalog_rows(TheoryDomain::WorldTraditions));
        assert(r.style_eras@.map_values(|e: TheoryEntry| entry_row(e)) =~~= catalog_rows(TheoryDomain::StyleEras));
        assert(r.intervals@.map_values(|e: TheoryEntry| entry_text(e)) =~~= catalog_texts(TheoryDomain::Intervals));
        assert(r.scales@.map_values(|e: TheoryEntry| entry_text(e)) =~~= catalog_texts(TheoryDomain::Scales));
        assert(r.modes@.map_values(|e: TheoryEntry| entry_text(e)) =~~= catalog_texts(TheoryDomain::Modes));
        assert(r.chord_qualities@.map_values(|e: TheoryEntry| entry_text(e)) =~~= catalog_texts(TheoryDomain::ChordQualities));
        assert(r.cadences@.map_values(|e: TheoryEntry| entry_text(e)) =~~= catalog_texts(TheoryDomain::Cadences));
        assert(r.meters@.map_values(|e: TheoryEntry| entry_text(e)) =~~= catalog_texts(TheoryDomain::Meters));
        assert(r.rhythms@.map_values(|e: TheoryEntry| entry_text(e)) =~~= catalog_texts(TheoryDomain::Rhythms));
        assert(r.dynamics@.map_values(|e: TheoryEntry| entry_text(e)) =~~= catalog_texts(TheoryDomain::Dynamics));
        assert(r.forms@.map_values(|e: TheoryEntry| entry_text(e)) =~~= catalog_texts(TheoryDomain::Forms));
        assert(r.textures@.map_values(|e: TheoryEntry| entry_text(e)) =~~= catalog_texts(TheoryDomain::Textures));
        assert(r.ornaments@.map_values(|e: TheoryEntry| entry_text(e)) =~~= catalog_texts(TheoryDomain::Ornaments));
        assert(r.contrapuntal_motions@.map_values(|e: TheoryEntry| entry_text(e)) =~~= catalog_texts(TheoryDomain::ContrapuntalMotions));
        assert(r.non_chord_tones@.map_values(|e: TheoryEntry| entry_text(e)) =~~= catalog_texts(TheoryDomain::NonChordTones));
        assert(r.harmonic_functions@.map_values(|e: TheoryEntry| entry_text(e)) =~~= catalog_texts(TheoryDomain::HarmonicFunctions));
        assert(r.set_classes@.map_values(|e: TheoryEntry| entry_text(e)) =~~= catalog_texts(TheoryDomain::SetClasses));
        assert(r.tuning_systems@.map_values(|e: TheoryEntry| entry_text(e)) =~~= catalog_texts(TheoryDomain::TuningSystems));
        assert(r.world_traditions@.map_values(|e: TheoryEntry| entry_text(e)) =~~= catalog_texts(TheoryDomain::WorldTraditions));
        assert(r.style_eras@.map_values(|e: TheoryEntry| entry_text(e)) =~~= catalog_texts(TheoryDomain::StyleEras));
        assert forall|d: TheoryDomain|
            #![trigger r.entries_spec(d)]
            r.entries_spec(d).map_values(|e: TheoryEntry| entry_row(e)) == catalog_rows(d) by {
            match d {
                TheoryDomain::Intervals => {},
                TheoryDomain::Scales => {},
                TheoryDomain::Modes => {},
                TheoryDomain::ChordQualities => {},
                TheoryDomain::Cadences => {},
                TheoryDomain::Meters => {},
                TheoryDomain::Rhythms => {},
                TheoryDomain::Dynamics => {},
                TheoryDomain::Forms => {},
                TheoryDomain::Textures => {},
                TheoryDomain::Ornaments => {},
                TheoryDomain::ContrapuntalMotions => {},
                TheoryDomain::NonChordTones => {},
                TheoryDomain::HarmonicFunctions => {},
                TheoryDomain::SetClasses => {},
                TheoryDomain::TuningSystems => {},
                TheoryDomain::WorldTraditions => {},
                TheoryDomain::StyleEras => {},
            }
        }
        assert forall|d: TheoryDomain|
            #![trigger r.entries_spec(d)]
            r.entries_spec(d).map_values(|e: TheoryEntry| entry_text(e)) == catalog_texts(d) by {
            match d {
                TheoryDomain::Intervals => {},
                TheoryDomain::Scales => {},
                TheoryDomain::Modes => {},
                TheoryDomain::ChordQualities => {},
                TheoryDomain::Cadences => {},
                TheoryDomain::Meters => {},
                TheoryDomain::Rhythms => {},
                TheoryDomain::Dynamics => {},
                TheoryDomain::Forms => {},
                TheoryDomain::Textures => {},
                TheoryDomain::Ornaments => {},
                TheoryDomain::ContrapuntalMotions => {},
                TheoryDomain::NonChordTones => {},
                TheoryDomain::HarmonicFunctions => {},
                TheoryDomain::SetClasses => {},
                TheoryDomain::TuningSystems => {},
                TheoryDomain::WorldTraditions => {},
                TheoryDomain::StyleEras => {},
            }
        }
    }
    r
}

} // verus!
