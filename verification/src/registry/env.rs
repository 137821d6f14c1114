//! The environment of a server: values under keys.

use crate::text::same;
use vstd::prelude::*;

verus! {

/// Values under keys, one entry for each key that was set.
#[derive(Debug)]
pub struct EnvMap {
    pub entries: Vec<(String, String)>,
}

/// The map that some entries make, a later one in place of an earlier one with the same key.
pub open spec fn entry_map(entries: Seq<(String, String)>) -> Map<Seq<char>, Seq<char>>
    decreases entries.len(),
{
    if entries.len() == 0 {
        Map::empty()
    } else {
        entry_map(entries.drop_last()).insert(entries.last().0@, entries.last().1@)
    }
}

impl View for EnvMap {
    type V = Map<Seq<char>, Seq<char>>;

    open spec fn view(&self) -> Map<Seq<char>, Seq<char>> {
        entry_map(self.entries@)
    }
}

impl EnvMap {
    /// An environment without keys.
    pub fn new() -> (r: EnvMap)
        ensures
            r@ == Map::<Seq<char>, Seq<char>>::empty(),
    {
        EnvMap { entries: Vec::new() }
    }

    /// Set `key` to `value`, in place of the value that it had.
    pub fn insert(&mut self, key: String, value: String)
        ensures
            final(self)@ == old(self)@.insert(key@, value@),
    {
        let mut kept: Vec<(String, String)> = Vec::new();
        let mut i: usize = 0;
        while i < self.entries.len()
            invariant
                i <= self.entries@.len(),
                entry_map(kept@) == entry_map(self.entries@.take(i as int)).remove(key@),
            decreases self.entries@.len() - i,
        {
            let ghost before = kept@;
            proof {
                let head = self.entries@.take(i + 1);
                assert(head.drop_last() =~= self.entries@.take(i as int));
                assert(head.last() == self.entries@[i as int]);
            }
            if !same(self.entries[i].0.as_str(), key.as_str()) {
                kept.push((self.entries[i].0.clone(), self.entries[i].1.clone()));
                assert(kept@.drop_last() =~= before);
            }
            assert(entry_map(kept@) =~= entry_map(self.entries@.take(i + 1)).remove(key@));
            i = i + 1;
        }
        assert(self.entries@.take(self.entries@.len() as int) =~= self.entries@);
        let ghost before = kept@;
        kept.push((key, value));
        assert(kept@.drop_last() =~= before);
        assert(entry_map(kept@) =~= self@.insert(key@, value@));
        self.entries = kept;
    }

    /// The value of `key`.
    pub fn get(&self, key: &str) -> (r: Option<String>)
        ensures
            match r {
                Some(value) => self@.dom().contains(key@) && value@ == self@[key@],
                None => !self@.dom().contains(key@),
            },
    {
        let mut i: usize = self.entries.len();
        assert(self.entries@.take(i as int) =~= self.entries@);
        while i > 0
            invariant
                i <= self.entries@.len(),
                self@.dom().contains(key@) == entry_map(
                    self.entries@.take(i as int),
                ).dom().contains(key@),
                self@.dom().contains(key@) ==> self@[key@] == entry_map(
                    self.entries@.take(i as int),
                )[key@],
            decreases i,
        {
            let ghost head = self.entries@.take(i as int);
            assert(head.drop_last() =~= self.entries@.take(i - 1));
            assert(head.last() == self.entries@[i - 1]);
            if same(self.entries[i - 1].0.as_str(), key) {
                return Some(self.entries[i - 1].1.clone());
            }
            i = i - 1;
        }
        None
    }

    /// Whether no key is set.
    pub fn is_empty(&self) -> (r: bool)
        ensures
            r == (self@ == Map::<Seq<char>, Seq<char>>::empty()),
    {
        if self.entries.len() > 0 {
            assert(self@.dom().contains(self.entries@.last().0@));
            false
        } else {
            true
        }
    }
}

/// A key is set exactly where some entry has it, and the last such entry gives its value.
pub proof fn law_the_last_entry_of_a_key_stands(
    entries: Seq<(String, String)>,
    key: Seq<char>,
    i: int,
)
    ensures
        entry_map(entries).dom().contains(key) <==> exists|k: int|
            0 <= k < entries.len() && (#[trigger] entries[k]).0@ == key,
        0 <= i < entries.len() && entries[i].0@ == key && (forall|k: int|
            i < k < entries.len() ==> (#[trigger] entries[k]).0@ != key) ==> entry_map(entries)[key]
            == entries[i].1@,
    decreases entries.len(),
{
    if entries.len() > 0 {
        let front = entries.drop_last();
        law_the_last_entry_of_a_key_stands(front, key, i);
        assert forall|k: int| 0 <= k < front.len() implies #[trigger] entries[k] == front[k] by {}
        assert(entries[entries.len() - 1] == entries.last());
    }
}

} // verus!
