//! The command map: which script a key combination runs, as configured.

use vstd::prelude::*;
use crate::assoc::{as_map, distinct_keys, lemma_as_map_entry, lemma_as_map_len, lemma_as_map_push, lemma_as_map_update};
use crate::combo::{parse_key_combination, parsed, KeyCombination};

verus! {

/// What a command map holds: for each mapped combination the path of its
/// script.
pub type Commands = Map<Seq<Seq<char>>, Seq<char>>;

/// One configured mapping from a key combination to a script.
#[derive(Debug)]
pub struct CommandMapping {
    /// The combination as written in the configuration, such as `meta+f1`.
    pub keys: String,
    /// The absolute path of the script to run.
    pub path: String,
}

/// The configuration of the relay service.
#[derive(Debug)]
pub struct Config {
    /// The user as whom the scripts run.
    pub user: String,
    /// The mappings, in the order of the configuration.
    pub commands: Vec<CommandMapping>,
}

/// The map that a list of mappings amounts to, each given as the written
/// combination and the path. Where two mappings name the same combination,
/// the later one stands.
pub open spec fn command_map_of(mappings: Seq<(Seq<char>, Seq<char>)>) -> Commands
    decreases mappings.len(),
{
    if mappings.len() == 0 {
        Map::empty()
    } else {
        command_map_of(mappings.drop_last()).insert(parsed(mappings.last().0), mappings.last().1)
    }
}

impl Config {
    /// The mappings as pairs of written combination and path.
    pub open spec fn mappings(&self) -> Seq<(Seq<char>, Seq<char>)> {
        Seq::new(self.commands@.len(), |i: int| (self.commands@[i].keys@, self.commands@[i].path@))
    }

    /// The command map for this configuration.
    pub fn build_command_map(&self) -> (map: CommandMap)
        ensures
            map@ == command_map_of(self.mappings()),
    {
        let mut map = CommandMap::new();
        let mut i: usize = 0;
        while i < self.commands.len()
            invariant
                i <= self.commands@.len(),
                map@ == command_map_of(self.mappings().take(i as int)),
            decreases self.commands@.len() - i,
        {
            let mapping = &self.commands[i];
            let combo = parse_key_combination(mapping.keys.as_str());
            let path = mapping.path.clone();
            map.insert(combo, path);
            proof {
                let next = self.mappings().take(i + 1);
                assert(next.drop_last() =~= self.mappings().take(i as int));
            }
            i += 1;
        }
        assert(self.mappings().take(i as int) =~= self.mappings());
        map
    }
}

/// The entries as pairs of combination and path.
spec fn command_pairs(v: Seq<(KeyCombination, String)>) -> Seq<(Seq<Seq<char>>, Seq<char>)> {
    Seq::new(v.len(), |i: int| (v[i].0@, v[i].1@))
}

/// The command map: for each mapped key combination, the path of the
/// script that it runs.
#[derive(Debug)]
pub struct CommandMap {
    entries: Vec<(KeyCombination, String)>,
}

impl View for CommandMap {
    type V = Commands;

    closed spec fn view(&self) -> Commands {
        as_map(command_pairs(self.entries@))
    }
}

impl CommandMap {
    /// No combination is mapped twice.
    #[verifier::type_invariant]
    spec fn well_formed(&self) -> bool {
        distinct_keys(command_pairs(self.entries@))
    }

    /// The map without any mapping.
    pub fn new() -> (map: CommandMap)
        ensures
            map@ == Map::<Seq<Seq<char>>, Seq<char>>::empty(),
    {
        let entries: Vec<(KeyCombination, String)> = Vec::new();
        CommandMap { entries }
    }

    /// The number of mapped combinations.
    pub fn len(&self) -> (n: usize)
        ensures
            self@.dom().finite(),
            n == self@.dom().len(),
    {
        proof {
            use_type_invariant(self);
            lemma_as_map_len(command_pairs(self.entries@));
        }
        self.entries.len()
    }

    /// Maps `combo` to `path`, in place of any path that it had.
    pub fn insert(&mut self, combo: KeyCombination, path: String)
        ensures
            final(self)@ == old(self)@.insert(combo@, path@),
    {
        proof {
            use_type_invariant(&*self);
        }
        let mut entries: Vec<(KeyCombination, String)> = Vec::new();
        std::mem::swap(&mut self.entries, &mut entries);
        let ghost pairs = command_pairs(entries@);
        let mut i: usize = 0;
        while i < entries.len()
            invariant
                i <= entries@.len(),
                pairs == command_pairs(entries@),
                old(self)@ == as_map(pairs),
                distinct_keys(pairs),
                forall|k: int| 0 <= k < i ==> (#[trigger] pairs[k]).0 != combo@,
            decreases entries@.len() - i,
        {
            if entries[i].0 == combo {
                proof {
                    lemma_as_map_update(pairs, i as int, path@);
                }
                let ghost k = combo@;
                let ghost v = path@;
                entries.set(i, (combo, path));
                assert(command_pairs(entries@) =~= pairs.update(i as int, (k, v)));
                self.entries = entries;
                return ;
            }
            i += 1;
        }
        proof {
            lemma_as_map_push(pairs, combo@, path@);
        }
        let ghost k = combo@;
        let ghost v = path@;
        entries.push((combo, path));
        assert(command_pairs(entries@) =~= pairs.push((k, v)));
        self.entries = entries;
    }

    /// The script that `combo` runs, if it is mapped. Only the very same
    /// combination matches.
    pub fn lookup(&self, combo: &KeyCombination) -> (r: Option<&String>)
        ensures
            r is Some == self@.dom().contains(combo@),
            r matches Some(path) ==> path@ == self@[combo@],
    {
        proof {
            use_type_invariant(self);
        }
        let ghost pairs = command_pairs(self.entries@);
        let mut i: usize = 0;
        while i < self.entries.len()
            invariant
                i <= self.entries@.len(),
                pairs == command_pairs(self.entries@),
                distinct_keys(pairs),
                forall|k: int| 0 <= k < i ==> (#[trigger] pairs[k]).0 != combo@,
            decreases self.entries@.len() - i,
        {
            if self.entries[i].0 == *combo {
                proof {
                    assert(pairs[i as int].0 == combo@);
                }
                return Some(&self.entries[i].1);
            }
            i += 1;
        }
        None
    }

    /// The mappings, one entry for each mapped combination, in no
    /// particular order.
    pub fn entries(&self) -> (r: &Vec<(KeyCombination, String)>)
        ensures
            r@.len() == self@.dom().len(),
            forall|i: int|
                0 <= i < r@.len() ==> self@.dom().contains((#[trigger] r@[i]).0@) && self@[r@[i].0@]
                    == r@[i].1@,
            forall|i: int, j: int|
                0 <= i < j < r@.len() ==> (#[trigger] r@[i]).0@ != (#[trigger] r@[j]).0@,
    {
        proof {
            use_type_invariant(self);
            let pairs = command_pairs(self.entries@);
            lemma_as_map_len(pairs);
            assert forall|i: int| 0 <= i < self.entries@.len() implies self@.dom().contains(
                (#[trigger] self.entries@[i]).0@,
            ) && self@[self.entries@[i].0@] == self.entries@[i].1@ by {
                lemma_as_map_entry(pairs, i);
            }
            assert forall|i: int, j: int| 0 <= i < j < self.entries@.len() implies (
            #[trigger] self.entries@[i]).0@ != (#[trigger] self.entries@[j]).0@ by {
                assert(pairs[i].0 != pairs[j].0);
            }
        }
        &self.entries
    }
}

} // verus!
