//! The token registry: the trust boundary of the subsystem. It maps
//! opaque tokens to file paths; its view is the map a sequence of
//! insertions builds, later insertions winning.

use vstd::prelude::*;
use vstd::string::StringExecFns;

verus! {

/// The map that a sequence of `(token, path)` insertions builds.
pub open spec fn map_of(entries: Seq<(String, String)>) -> Map<Seq<char>, Seq<char>>
    decreases entries.len(),
{
    if entries.len() == 0 {
        Map::empty()
    } else {
        map_of(entries.drop_last()).insert(entries.last().0@, entries.last().1@)
    }
}

/// A registry whose view contains no key for `t` maps `t` nowhere.
proof fn lemma_map_of_no_match(entries: Seq<(String, String)>, t: Seq<char>)
    requires
        forall|j: int| 0 <= j < entries.len() ==> entries[j].0@ != t,
    ensures
        !map_of(entries).contains_key(t),
    decreases entries.len(),
{
    if entries.len() > 0 {
        lemma_map_of_no_match(entries.drop_last(), t);
    }
}

/// The last entry for a token decides what the registry's view maps it
/// to.
proof fn lemma_map_of_last_match(entries: Seq<(String, String)>, i: int, t: Seq<char>)
    requires
        0 <= i < entries.len(),
        entries[i].0@ == t,
        forall|j: int| i < j < entries.len() ==> entries[j].0@ != t,
    ensures
        map_of(entries).contains_key(t),
        map_of(entries)[t] == entries[i].1@,
    decreases entries.len(),
{
    if i == entries.len() - 1 {
        assert(entries.last() == entries[i]);
    } else {
        lemma_map_of_last_match(entries.drop_last(), i, t);
        assert(entries.last().0@ != t);
    }
}

/// Maps opaque tokens to absolute file paths. Entries are only ever
/// added; the view is the map of all registrations so far.
pub struct TokenRegistry {
    entries: Vec<(String, String)>,
}

impl View for TokenRegistry {
    type V = Map<Seq<char>, Seq<char>>;

    closed spec fn view(&self) -> Map<Seq<char>, Seq<char>> {
        map_of(self.entries@)
    }
}

impl TokenRegistry {
    /// An empty registry: no token resolves.
    pub fn new() -> (r: Self)
        ensures
            r@ == Map::<Seq<char>, Seq<char>>::empty(),
    {
        TokenRegistry { entries: Vec::new() }
    }

    /// Registers `path` under `token`. A token already present is
    /// remapped to the new path; every other token is untouched.
    pub fn register(&mut self, token: String, path: String)
        ensures
            final(self)@ == old(self)@.insert(token@, path@),
    {
        let ghost before = self.entries@;
        let ghost t = token@;
        let ghost p = path@;
        self.entries.push((token, path));
        proof {
            assert(self.entries@.drop_last() =~= before);
            assert(self.entries@.last().0@ == t);
            assert(self.entries@.last().1@ == p);
        }
    }

    /// Looks a token up: the path it was last registered under, or
    /// nothing for a token never registered.
    pub fn resolve(&self, token: &str) -> (r: Option<String>)
        ensures
            match r {
                Some(p) => self@.contains_key(token@) && p@ == self@[token@],
                None => !self@.contains_key(token@),
            },
    {
        let key = String::from_str(token);
        let mut i: usize = self.entries.len();
        while i > 0
            invariant
                0 <= i <= self.entries.len(),
                key@ == token@,
                forall|j: int| i <= j < self.entries@.len() ==> self.entries@[j].0@ != token@,
            decreases i,
        {
            i -= 1;
            if self.entries[i].0 == key {
                let p = self.entries[i].1.clone();
                proof {
                    lemma_map_of_last_match(self.entries@, i as int, token@);
                }
                return Some(p);
            }
        }
        proof {
            lemma_map_of_no_match(self.entries@, token@);
        }
        None
    }
}

} // verus!
