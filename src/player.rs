//! Player class archetypes and the quest flags a player collects.
use vstd::prelude::*;
use crate::keyed::{keyed_map, is_last_with_key, lemma_keyed_push, lemma_keyed_absent, lemma_keyed_last, lemma_keyed_update_last};

verus! {

/// Player class archetypes.
#[derive(Debug, Clone, Copy, PartialEq, Eq, Structural)]
pub enum PlayerClass {
    Warrior,
    Mage,
    Rogue,
    Balanced,
}

impl PlayerClass {
    /// The display name of the class.
    pub fn name(&self) -> (r: &'static str)
        ensures
            r@ == match *self {
                PlayerClass::Warrior => "Warrior"@,
                PlayerClass::Mage => "Mage"@,
                PlayerClass::Rogue => "Rogue"@,
                PlayerClass::Balanced => "Adventurer"@,
            },
    {
        match self {
            PlayerClass::Warrior => "Warrior",
            PlayerClass::Mage => "Mage",
            PlayerClass::Rogue => "Rogue",
            PlayerClass::Balanced => "Adventurer",
        }
    }

    /// A one-line description of the class.
    pub fn description(&self) -> (r: &'static str)
        ensures
            r@ == match *self {
                PlayerClass::Warrior => "High strength and vitality. Excels in melee combat."@,
                PlayerClass::Mage => "High intelligence. Master of magic and spells."@,
                PlayerClass::Rogue => "High dexterity and luck. Quick and deadly."@,
                PlayerClass::Balanced => "Balanced stats. Jack of all trades."@,
            },
    {
        match self {
            PlayerClass::Warrior => "High strength and vitality. Excels in melee combat.",
            PlayerClass::Mage => "High intelligence. Master of magic and spells.",
            PlayerClass::Rogue => "High dexterity and luck. Quick and deadly.",
            PlayerClass::Balanced => "Balanced stats. Jack of all trades.",
        }
    }
}

pub open spec fn flag_key(e: (String, bool)) -> Seq<char> {
    e.0@
}

/// Named quest flags, each true or false; a flag never set reads false.
#[derive(Debug, Clone)]
pub struct QuestFlags {
    entries: Vec<(String, bool)>,
}

impl View for QuestFlags {
    type V = Map<Seq<char>, bool>;

    closed spec fn view(&self) -> Map<Seq<char>, bool> {
        keyed_map(self.entries@, |e: (String, bool)| flag_key(e)).map_values(|e: (String, bool)| e.1)
    }
}

impl QuestFlags {
    /// No flag set.
    pub fn new() -> (r: Self)
        ensures
            r@ == Map::<Seq<char>, bool>::empty(),
    {
        let r = QuestFlags { entries: Vec::new() };
        assert(r@ =~= Map::<Seq<char>, bool>::empty());
        r
    }

    /// Index of the last entry named `flag`, if any.
    fn find(&self, flag: &String) -> (r: Option<usize>)
        ensures
            match r {
                Some(i) => is_last_with_key(self.entries@, |e: (String, bool)| flag_key(e), flag@, i as int),
                None => forall|j: int| 0 <= j < self.entries@.len() ==> flag_key(#[trigger] self.entries@[j]) != flag@,
            },
    {
        let mut i: usize = self.entries.len();
        while i > 0
            invariant
                i <= self.entries.len(),
                forall|j: int| i <= j < self.entries@.len() ==> flag_key(#[trigger] self.entries@[j]) != flag@,
            decreases i,
        {
            i = i - 1;
            if self.entries[i].0 == *flag {
                return Some(i);
            }
        }
        None
    }

    /// Sets `flag` to `value`.
    pub fn set_quest_flag(&mut self, flag: &str, value: bool)
        ensures
            final(self)@ == old(self)@.insert(flag@, value),
    {
        let name = flag.to_owned();
        let ghost key = |e: (String, bool)| flag_key(e);
        match self.find(&name) {
            Some(i) => {
                proof {
                    lemma_keyed_update_last(self.entries@, key, flag@, i as int, (name, value));
                }
                self.entries.set(i, (name, value));
            },
            None => {
                proof {
                    lemma_keyed_push(self.entries@, key, (name, value));
                }
                self.entries.push((name, value));
            },
        }
        assert(self@ =~= old(self)@.insert(flag@, value));
    }

    /// The value of `flag`; false where it was never set.
    pub fn has_quest_flag(&self, flag: &str) -> (r: bool)
        ensures
            r == (self@.contains_key(flag@) && self@[flag@]),
    {
        let name = flag.to_owned();
        let ghost key = |e: (String, bool)| flag_key(e);
        match self.find(&name) {
            Some(i) => {
                proof {
                    lemma_keyed_last(self.entries@, key, flag@, i as int);
                }
                self.entries[i].1
            },
            None => {
                proof {
                    lemma_keyed_absent(self.entries@, key, flag@);
                }
                false
            },
        }
    }
}

} // verus!
