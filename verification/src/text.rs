//! Helpers on strings, stated over their sequences of characters.

use vstd::prelude::*;

verus! {

/// Whether `s` begins with `prefix`.
pub open spec fn has_prefix(s: Seq<char>, prefix: Seq<char>) -> bool {
    prefix.len() <= s.len() && s.subrange(0, prefix.len() as int) == prefix
}

/// Whether `s` ends with `suffix`.
pub open spec fn has_suffix(s: Seq<char>, suffix: Seq<char>) -> bool {
    suffix.len() <= s.len() && s.subrange(s.len() - suffix.len(), s.len() as int) == suffix
}

/// Index of the first `c` in `s` at or after `from`, or the length of `s`
/// if there is none.
pub open spec fn first_index_of(s: Seq<char>, c: char, from: int) -> int
    decreases s.len() - from,
{
    if from < 0 || from >= s.len() {
        s.len() as int
    } else if s[from] == c {
        from
    } else {
        first_index_of(s, c, from + 1)
    }
}

/// What `first_index_of` finds lies between `from` and the end, holds `c`
/// unless it is the end, and nothing before it holds `c`.
pub proof fn lemma_first_index_of(s: Seq<char>, c: char, from: int)
    requires
        0 <= from <= s.len(),
    ensures
        from <= first_index_of(s, c, from) <= s.len(),
        first_index_of(s, c, from) < s.len() ==> s[first_index_of(s, c, from)] == c,
        forall|j: int| from <= j < first_index_of(s, c, from) ==> s[j] != c,
    decreases s.len() - from,
{
    if from < s.len() && s[from] != c {
        lemma_first_index_of(s, c, from + 1);
    }
}

/// Index of the first of `names` at or after `from` that equals `name`, or
/// the number of names if none does.
pub open spec fn name_index(names: Seq<Seq<char>>, name: Seq<char>, from: int) -> int
    decreases names.len() - from,
{
    if from < 0 || from >= names.len() {
        names.len() as int
    } else if names[from] == name {
        from
    } else {
        name_index(names, name, from + 1)
    }
}

/// What `name_index` finds lies between `from` and the number of names, and
/// equals `name` unless it is that number.
pub proof fn lemma_name_index(names: Seq<Seq<char>>, name: Seq<char>, from: int)
    requires
        0 <= from <= names.len(),
    ensures
        from <= name_index(names, name, from) <= names.len(),
        name_index(names, name, from) < names.len() ==> names[name_index(names, name, from)]
            == name,
    decreases names.len() - from,
{
    if from < names.len() && names[from] != name {
        lemma_name_index(names, name, from + 1);
    }
}

/// A name that stands at position `at` is found at or before `at`.
pub proof fn lemma_found_before(names: Seq<Seq<char>>, name: Seq<char>, from: int, at: int)
    requires
        0 <= from <= at < names.len(),
        names[at] == name,
    ensures
        name_index(names, name, from) <= at,
    decreases at - from,
{
    if names[from] != name {
        lemma_found_before(names, name, from + 1, at);
    }
}

/// A name is found exactly if the list holds it.
pub proof fn lemma_name_index_known(names: Seq<Seq<char>>, name: Seq<char>)
    ensures
        name_index(names, name, 0) < names.len() <==> names.contains(name),
        0 <= name_index(names, name, 0) <= names.len(),
{
    lemma_name_index(names, name, 0);
    if names.contains(name) {
        let at = choose|at: int| 0 <= at < names.len() && names[at] == name;
        lemma_found_before(names, name, 0, at);
    }
}

/// Whether `s` begins with `prefix`.
pub fn starts_with(s: &str, prefix: &str) -> (b: bool)
    ensures
        b == has_prefix(s@, prefix@),
{
    let n = s.unicode_len();
    let p = prefix.unicode_len();
    if p > n {
        false
    } else {
        s.substring_char(0, p).to_owned() == prefix.to_owned()
    }
}

/// Whether `s` ends with `suffix`.
pub fn ends_with(s: &str, suffix: &str) -> (b: bool)
    ensures
        b == has_suffix(s@, suffix@),
{
    let n = s.unicode_len();
    let p = suffix.unicode_len();
    if p > n {
        false
    } else {
        s.substring_char(n - p, n).to_owned() == suffix.to_owned()
    }
}

/// Whether the two strings hold the same characters.
pub fn same_text(a: &str, b: &str) -> (r: bool)
    ensures
        r == (a@ == b@),
{
    a.to_owned() == b.to_owned()
}

/// Index of the first `c` in `s` at or after `from`, or the length of `s`.
pub fn find_char(s: &str, c: char, from: usize) -> (i: usize)
    requires
        from <= s@.len(),
    ensures
        i == first_index_of(s@, c, from as int),
        from <= i <= s@.len(),
{
    let n = s.unicode_len();
    let mut i: usize = from;
    proof {
        lemma_first_index_of(s@, c, from as int);
    }
    while i < n
        invariant
            n == s@.len(),
            from <= i <= n,
            first_index_of(s@, c, from as int) == first_index_of(s@, c, i as int),
        decreases n - i,
    {
        if s.get_char(i) == c {
            return i;
        }
        i += 1;
    }
    i
}

/// The characters of `s` from `from` up to `to`, as a string of their own.
pub fn slice(s: &str, from: usize, to: usize) -> (r: String)
    requires
        from <= to <= s@.len(),
    ensures
        r@ == s@.subrange(from as int, to as int),
{
    s.substring_char(from, to).to_owned()
}

} // verus!
