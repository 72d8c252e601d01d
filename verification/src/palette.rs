//! The block palette: a bijection between block-state strings and small
//! integers, in first-seen order, with index 0 reserved for air.

use vstd::prelude::*;
use crate::text::{lemma_found_before, lemma_name_index, name_index};

verus! {

/// Palette of block-state strings. Index 0 always names the empty block.
#[derive(Clone, Debug, PartialEq, Eq)]
pub struct BlockPalette {
    blocks: Vec<String>,
}

/// The block-state string of the empty block, as a sequence of characters.
pub open spec fn air_name() -> Seq<char> {
    "minecraft:air"@
}

/// Whether no string occurs twice in `names`.
pub open spec fn distinct(names: Seq<Seq<char>>) -> bool {
    forall|i: int, j: int| 0 <= i < j < names.len() ==> names[i] != names[j]
}

/// Whether `names` holds `name`.
pub open spec fn knows(names: Seq<Seq<char>>, name: Seq<char>) -> bool {
    name_index(names, name, 0) < names.len()
}

/// The names after `name` was asked for: it is appended unless it is
/// already there.
pub open spec fn with_name(names: Seq<Seq<char>>, name: Seq<char>) -> Seq<Seq<char>> {
    if knows(names, name) {
        names
    } else {
        names.push(name)
    }
}

/// The index of `name` once it was asked for.
pub open spec fn index_of(names: Seq<Seq<char>>, name: Seq<char>) -> int {
    name_index(with_name(names, name), name, 0)
}

impl BlockPalette {
    /// The names held, by index.
    pub closed spec fn view(&self) -> Seq<Seq<char>> {
        Seq::new(self.blocks@.len(), |i: int| self.blocks@[i]@)
    }

    /// A palette starts with air and never holds a name twice.
    pub open spec fn wf(&self) -> bool {
        &&& self@.len() >= 1
        &&& self@[0] == air_name()
        &&& distinct(self@)
    }

    /// A palette that holds only air, at index 0.
    pub fn new() -> (p: Self)
        ensures
            p.wf(),
            p@ == seq![air_name()],
    {
        let mut blocks: Vec<String> = Vec::new();
        blocks.push("minecraft:air".to_owned());
        let p = BlockPalette { blocks };
        assert(p@ =~= seq![air_name()]);
        p
    }

    /// Number of names held, air included.
    pub fn len(&self) -> (n: usize)
        ensures
            n == self@.len(),
    {
        self.blocks.len()
    }

    /// The name at index `idx`.
    pub fn name_at(&self, idx: usize) -> (name: &str)
        requires
            idx < self@.len(),
        ensures
            name@ == self@[idx as int],
    {
        self.blocks[idx].as_str()
    }

    /// Index of `name`, which is appended first if the palette lacks it.
    pub fn get_or_add(&mut self, name: &str) -> (idx: usize)
        ensures
            old(self).wf() ==> final(self).wf(),
            final(self)@ == with_name(old(self)@, name@),
            idx == index_of(old(self)@, name@),
            idx < final(self)@.len(),
            final(self)@[idx as int] == name@,
    {
        let owned = name.to_owned();
        let n = self.blocks.len();
        let mut i: usize = 0;
        proof {
            lemma_name_index(self@, name@, 0);
        }
        while i < n
            invariant
                n == self.blocks@.len(),
                *self == *old(self),
                owned@ == name@,
                0 <= i <= n,
                forall|j: int| 0 <= j < i ==> self@[j] != name@,
                name_index(self@, name@, 0) == name_index(self@, name@, i as int),
            decreases n - i,
        {
            if self.blocks[i] == owned {
                assert(self@[i as int] == name@);
                return i;
            }
            i += 1;
        }
        self.blocks.push(owned);
        assert(self@ =~= old(self)@.push(name@));
        proof {
            lemma_index_of_new(old(self)@, name@);
            if old(self).wf() {
                lemma_with_name_distinct(old(self)@, name@);
            }
        }
        n
    }
}

impl Default for BlockPalette {
    /// A palette that holds only air, at index 0.
    fn default() -> (p: Self)
        ensures
            p.wf(),
            p@ == seq![air_name()],
    {
        BlockPalette::new()
    }
}

/// Appending to a list keeps the index of every name that it holds.
pub proof fn lemma_name_index_push(
    names: Seq<Seq<char>>,
    name: Seq<char>,
    extra: Seq<char>,
    from: int,
)
    requires
        0 <= from <= names.len(),
        name_index(names, name, from) < names.len(),
    ensures
        name_index(names.push(extra), name, from) == name_index(names, name, from),
    decreases names.len() - from,
{
    if names[from] != name {
        lemma_name_index_push(names, name, extra, from + 1);
    }
}

/// A name that a list lacks gets the list's length as its index.
pub proof fn lemma_index_of_new(names: Seq<Seq<char>>, name: Seq<char>)
    requires
        !knows(names, name),
    ensures
        index_of(names, name) == names.len(),
{
    lemma_name_index(names, name, 0);
    lemma_absent_index(names, name, 0);
}

/// If no name from `from` on equals `name`, the longer list finds `name` at
/// its last position.
proof fn lemma_absent_index(names: Seq<Seq<char>>, name: Seq<char>, from: int)
    requires
        0 <= from <= names.len(),
        name_index(names, name, from) == names.len(),
    ensures
        name_index(names.push(name), name, from) == names.len(),
    decreases names.len() - from,
{
    if from < names.len() {
        lemma_absent_index(names, name, from + 1);
    }
}

/// The first block-state that is not air gets index 1.
pub proof fn lemma_first_new_gets_one(name: Seq<char>)
    requires
        name != air_name(),
    ensures
        index_of(seq![air_name()], name) == 1,
{
    let names = seq![air_name()];
    assert(name_index(names, name, 1) == 1);
    assert(name_index(names, name, 0) == 1);
    lemma_index_of_new(names, name);
}

/// In a palette that starts with air, every other block-state has an index
/// of at least 1.
pub proof fn lemma_only_air_is_zero(names: Seq<Seq<char>>, name: Seq<char>)
    requires
        names.len() >= 1,
        names[0] == air_name(),
        name != air_name(),
    ensures
        index_of(names, name) >= 1,
{
    let after = with_name(names, name);
    assert(after[0] == air_name());
    lemma_name_index(after, name, 1);
}

/// Asking again for a name returns the same index and changes nothing,
/// whatever other name was asked for in between.
pub proof fn lemma_requery_same(names: Seq<Seq<char>>, name: Seq<char>, other: Seq<char>)
    ensures
        index_of(with_name(names, name), name) == index_of(names, name),
        with_name(with_name(names, name), name) == with_name(names, name),
        index_of(with_name(with_name(names, name), other), name) == index_of(names, name),
{
    let first = with_name(names, name);
    lemma_name_index(names, name, 0);
    if !knows(names, name) {
        lemma_index_of_new(names, name);
    }
    assert(knows(first, name));
    let second = with_name(first, other);
    if !knows(first, other) {
        lemma_name_index_push(first, name, other, 0);
    }
    assert(knows(second, name));
}

/// Two distinct new names, asked for one after the other, get strictly
/// increasing indices.
pub proof fn lemma_new_indices_increase(names: Seq<Seq<char>>, a: Seq<char>, b: Seq<char>)
    requires
        !knows(names, a),
        !knows(with_name(names, a), b),
    ensures
        index_of(names, a) < index_of(with_name(names, a), b),
        index_of(names, a) == names.len(),
        index_of(with_name(names, a), b) == names.len() + 1,
{
    lemma_index_of_new(names, a);
    lemma_index_of_new(with_name(names, a), b);
}

/// Asking for a name keeps a list free of repetitions.
pub proof fn lemma_with_name_distinct(names: Seq<Seq<char>>, name: Seq<char>)
    requires
        distinct(names),
    ensures
        distinct(with_name(names, name)),
{
    if !knows(names, name) {
        let longer = names.push(name);
        assert forall|i: int, j: int| 0 <= i < j < longer.len() implies longer[i] != longer[j] by {
            if j == names.len() && longer[i] == longer[j] {
                lemma_found_before(names, name, 0, i);
            }
        }
    }
}

} // verus!
