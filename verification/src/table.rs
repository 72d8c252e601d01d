//! A small string-to-string table in which a later entry for a key replaces
//! an earlier one.

use vstd::prelude::*;

verus! {

/// One entry of a table.
#[derive(Clone, Debug, PartialEq, Eq)]
pub struct Entry {
    pub key: String,
    pub value: String,
}

/// The map that a list of entries stands for: later entries win.
pub open spec fn entries_map(s: Seq<(Seq<char>, Seq<char>)>) -> Map<Seq<char>, Seq<char>>
    decreases s.len(),
{
    if s.len() == 0 {
        Map::empty()
    } else {
        entries_map(s.drop_last()).insert(s.last().0, s.last().1)
    }
}

/// A table from names to values, kept in insertion order.
#[derive(Clone, Debug, PartialEq, Eq)]
pub struct StringMap {
    entries: Vec<Entry>,
}

impl StringMap {
    /// The entries in insertion order, shadowed ones included.
    pub closed spec fn pairs(&self) -> Seq<(Seq<char>, Seq<char>)> {
        Seq::new(self.entries@.len(), |i: int| (self.entries@[i].key@, self.entries@[i].value@))
    }

    /// The table as a map.
    pub open spec fn view(&self) -> Map<Seq<char>, Seq<char>> {
        entries_map(self.pairs())
    }

    /// The empty table.
    pub fn new() -> (m: Self)
        ensures
            m.pairs() == Seq::<(Seq<char>, Seq<char>)>::empty(),
            m@ == Map::<Seq<char>, Seq<char>>::empty(),
    {
        let m = StringMap { entries: Vec::new() };
        assert(m.pairs() =~= Seq::<(Seq<char>, Seq<char>)>::empty());
        m
    }

    /// Number of entries, shadowed ones included.
    pub fn len(&self) -> (n: usize)
        ensures
            n == self.pairs().len(),
    {
        self.entries.len()
    }

    /// Key of the entry at `i`.
    pub fn key_at(&self, i: usize) -> (k: &str)
        requires
            i < self.pairs().len(),
        ensures
            k@ == self.pairs()[i as int].0,
    {
        self.entries[i].key.as_str()
    }

    /// Value of the entry at `i`.
    pub fn value_at(&self, i: usize) -> (v: &str)
        requires
            i < self.pairs().len(),
        ensures
            v@ == self.pairs()[i as int].1,
    {
        self.entries[i].value.as_str()
    }

    /// Sets `key` to `value`, replacing what the table held for it.
    pub fn insert(&mut self, key: &str, value: &str)
        ensures
            final(self).pairs() == old(self).pairs().push((key@, value@)),
            final(self)@ == old(self)@.insert(key@, value@),
    {
        self.entries.push(Entry { key: key.to_owned(), value: value.to_owned() });
        assert(self.pairs() =~= old(self).pairs().push((key@, value@)));
        assert(self.pairs().drop_last() =~= old(self).pairs());
    }

    /// Merges the entries of `other` into the table; where both hold a
    /// key, the value of `other` replaces the table's.
    pub fn merge(&mut self, other: &StringMap)
        ensures
            final(self).pairs() == old(self).pairs() + other.pairs(),
            final(self)@ == old(self)@.union_prefer_right(other@),
    {
        let n = other.len();
        let mut i: usize = 0;
        assert(old(self).pairs() + other.pairs().take(0) =~= old(self).pairs());
        while i < n
            invariant
                n == other.pairs().len(),
                0 <= i <= n,
                self.pairs() == old(self).pairs() + other.pairs().take(i as int),
            decreases n - i,
        {
            self.insert(other.key_at(i), other.value_at(i));
            assert(other.pairs().take(i + 1) =~= other.pairs().take(i as int).push(
                other.pairs()[i as int],
            ));
            assert(self.pairs() =~= old(self).pairs() + other.pairs().take(i + 1));
            i += 1;
        }
        assert(other.pairs().take(n as int) =~= other.pairs());
        proof {
            lemma_entries_map_concat(old(self).pairs(), other.pairs());
        }
    }

    /// A copy of the table.
    pub fn duplicate(&self) -> (r: Self)
        ensures
            r.pairs() == self.pairs(),
            r@ == self@,
    {
        let mut r = StringMap::new();
        r.merge(self);
        assert(r.pairs() =~= self.pairs());
        r
    }

    /// The value held for `key`, if any.
    pub fn get(&self, key: &str) -> (r: Option<&str>)
        ensures
            match r {
                Some(v) => self@.contains_key(key@) && self@[key@] == v@,
                None => !self@.contains_key(key@),
            },
    {
        let owned = key.to_owned();
        let mut i: usize = self.entries.len();
        assert(self.pairs().take(i as int) =~= self.pairs());
        while i > 0
            invariant
                i <= self.pairs().len(),
                i <= self.entries@.len(),
                owned@ == key@,
                self@.contains_key(key@) == entries_map(self.pairs().take(i as int)).contains_key(
                    key@,
                ),
                self@.contains_key(key@) ==> self@[key@] == entries_map(
                    self.pairs().take(i as int),
                )[key@],
            decreases i,
        {
            let ghost prefix = self.pairs().take(i as int);
            assert(prefix.drop_last() =~= self.pairs().take(i - 1));
            assert(prefix.last() == self.pairs()[i - 1]);
            i -= 1;
            if self.entries[i].key == owned {
                return Some(self.entries[i].value.as_str());
            }
        }
        None
    }

    /// The value that the table holds for the key of the entry at `i`:
    /// that of the last entry with that key.
    pub fn current_at(&self, i: usize) -> (v: &str)
        requires
            i < self.pairs().len(),
        ensures
            self@.contains_key(self.pairs()[i as int].0),
            v@ == self@[self.pairs()[i as int].0],
    {
        proof {
            lemma_entries_map_dom(self.pairs(), self.pairs()[i as int].0);
        }
        match self.get(self.key_at(i)) {
            Some(v) => v,
            None => vstd::pervasive::unreached(),
        }
    }

    /// Whether the table holds a value for `key`.
    pub fn contains_key(&self, key: &str) -> (b: bool)
        ensures
            b == self@.contains_key(key@),
    {
        self.get(key).is_some()
    }
}

/// The map of a list followed by another is the map of the first,
/// overridden by the map of the second.
pub proof fn lemma_entries_map_concat(
    a: Seq<(Seq<char>, Seq<char>)>,
    b: Seq<(Seq<char>, Seq<char>)>,
)
    ensures
        entries_map(a + b) == entries_map(a).union_prefer_right(entries_map(b)),
    decreases b.len(),
{
    if b.len() == 0 {
        assert(a + b =~= a);
        assert(entries_map(a).union_prefer_right(entries_map(b)) =~= entries_map(a));
    } else {
        assert((a + b).drop_last() =~= a + b.drop_last());
        assert((a + b).last() == b.last());
        lemma_entries_map_concat(a, b.drop_last());
        assert(entries_map(a + b) =~= entries_map(a).union_prefer_right(entries_map(b)));
    }
}

/// The map of a list has finitely many keys, and no more than the list has
/// entries.
pub proof fn lemma_entries_map_finite(s: Seq<(Seq<char>, Seq<char>)>)
    ensures
        entries_map(s).dom().finite(),
        entries_map(s).dom().len() <= s.len(),
    decreases s.len(),
{
    if s.len() > 0 {
        lemma_entries_map_finite(s.drop_last());
        assert(entries_map(s).dom() =~= entries_map(s.drop_last()).dom().insert(s.last().0));
    } else {
        assert(entries_map(s).dom() =~= Set::<Seq<char>>::empty());
    }
}

/// Every key of the map comes from an entry of the list.
pub proof fn lemma_entries_map_dom(s: Seq<(Seq<char>, Seq<char>)>, k: Seq<char>)
    ensures
        entries_map(s).contains_key(k) <==> exists|i: int| 0 <= i < s.len() && s[i].0 == k,
    decreases s.len(),
{
    if s.len() > 0 {
        lemma_entries_map_dom(s.drop_last(), k);
        if entries_map(s).contains_key(k) {
            if s.last().0 == k {
                assert(s[s.len() - 1].0 == k);
            } else {
                let i = choose|i: int| 0 <= i < s.drop_last().len() && s.drop_last()[i].0 == k;
                assert(s[i].0 == k);
            }
        }
        if exists|i: int| 0 <= i < s.len() && s[i].0 == k {
            let i = choose|i: int| 0 <= i < s.len() && s[i].0 == k;
            if i < s.len() - 1 {
                assert(s.drop_last()[i].0 == k);
            }
        }
    }
}

} // verus!
