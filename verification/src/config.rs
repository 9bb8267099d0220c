//! The patterns that the host offers, by name.
use vstd::prelude::*;
use crate::device::led_matrix::PatternId;

verus! {

/// A built-in pattern of the device, as the host lists it.
#[derive(Debug, Default, Clone, PartialEq, Eq)]
pub struct Pattern {
    /// Id that selects the pattern on the device.
    pub id: PatternId,
    /// Text shown for the pattern.
    pub label: String,
}

/// The patterns on offer, each under its name, in the order in which they are
/// listed and selected by index. No name occurs twice.
#[derive(Debug, Clone, PartialEq, Eq)]
pub struct Config {
    /// Name and pattern of each entry.
    pub patterns: Vec<(String, Pattern)>,
}

/// One entry of a configuration as plain values: name, id and label.
pub type Entry = (Seq<char>, PatternId, Seq<char>);

/// The entries of the default configuration.
pub open spec fn default_entries() -> Seq<Entry> {
    seq![
        ("all_off"@, 0u8, "All Off"@),
        ("gradient"@, 1u8, "Gradient"@),
        ("double_gradient"@, 2u8, "Double Gradient"@),
        ("lotus_sideways"@, 3u8, "Lotus Sideways"@),
        ("zigzag"@, 4u8, "Zigzag"@),
        ("all_on"@, 5u8, "All On"@),
        ("panic"@, 6u8, "Panic"@),
        ("lotus_top_down"@, 7u8, "Lotus Top Down"@),
    ]
}

impl View for Config {
    type V = Seq<Entry>;

    open spec fn view(&self) -> Seq<Entry> {
        Seq::new(
            self.patterns@.len(),
            |i: int| (self.patterns@[i].0@, self.patterns@[i].1.id, self.patterns@[i].1.label@),
        )
    }
}

impl Config {
    /// No two entries have the same name.
    pub open spec fn wf(self) -> bool {
        forall|i: int, j: int|
            0 <= i < j < self@.len() ==> (#[trigger] self@[i]).0 != (#[trigger] self@[j]).0
    }

    /// The id of the pattern listed at `index`, if there is one.
    pub open spec fn spec_pattern_at(self, index: int) -> Option<PatternId> {
        if 0 <= index < self@.len() {
            Some(self@[index].1)
        } else {
            None
        }
    }

    /// The id of the pattern listed at `pattern_idx`; `None` for a negative
    /// index and for one past the last entry.
    pub fn pattern_at(&self, pattern_idx: i32) -> (id: Option<PatternId>)
        ensures
            id == self.spec_pattern_at(pattern_idx as int),
    {
        if pattern_idx < 0 {
            return None;
        }
        let index = pattern_idx as usize;
        if index < self.patterns.len() {
            Some(self.patterns[index].1.id)
        } else {
            None
        }
    }
}

proof fn lemma_default_names_differ()
    ensures
        forall|i: int, j: int|
            0 <= i < j < default_entries().len() ==> (#[trigger] default_entries()[i]).0 != (
            #[trigger] default_entries()[j]).0,
{
    reveal_strlit("all_off");
    reveal_strlit("gradient");
    reveal_strlit("double_gradient");
    reveal_strlit("lotus_sideways");
    reveal_strlit("zigzag");
    reveal_strlit("all_on");
    reveal_strlit("panic");
    reveal_strlit("lotus_top_down");
    let names = Seq::new(default_entries().len(), |i: int| default_entries()[i].0);
    assert(names[0].len() == 7 && names[1].len() == 8 && names[2].len() == 15);
    assert(names[3].len() == 14 && names[4].len() == 6 && names[5].len() == 6);
    assert(names[6].len() == 5 && names[7].len() == 14);
    assert(names[4][0] != names[5][0]);
    assert(names[3][6] != names[7][6]);
    assert forall|i: int, j: int| 0 <= i < j < default_entries().len() implies (
    #[trigger] default_entries()[i]).0 != (#[trigger] default_entries()[j]).0 by {
        assert(names[i] == default_entries()[i].0 && names[j] == default_entries()[j].0);
        if names[i].len() == names[j].len() {
            assert((i == 4 && j == 5) || (i == 3 && j == 7));
        }
    }
}

impl Default for Config {
    /// The eight patterns that every panel has built in, listed by id.
    fn default() -> (config: Config)
        ensures
            config@ == default_entries(),
            config.wf(),
    {
        let mut patterns: Vec<(String, Pattern)> = Vec::new();
        patterns.push(("all_off".to_owned(), Pattern { id: 0, label: "All Off".to_owned() }));
        patterns.push(("gradient".to_owned(), Pattern { id: 1, label: "Gradient".to_owned() }));
        patterns.push(
            ("double_gradient".to_owned(), Pattern { id: 2, label: "Double Gradient".to_owned() }),
        );
        patterns.push(
            ("lotus_sideways".to_owned(), Pattern { id: 3, label: "Lotus Sideways".to_owned() }),
        );
        patterns.push(("zigzag".to_owned(), Pattern { id: 4, label: "Zigzag".to_owned() }));
        patterns.push(("all_on".to_owned(), Pattern { id: 5, label: "All On".to_owned() }));
        patterns.push(("panic".to_owned(), Pattern { id: 6, label: "Panic".to_owned() }));
        patterns.push(
            ("lotus_top_down".to_owned(), Pattern { id: 7, label: "Lotus Top Down".to_owned() }),
        );
        let config = Config { patterns };
        proof {
            assert(config@ =~= default_entries());
            lemma_default_names_differ();
        }
        config
    }
}

} // verus!
