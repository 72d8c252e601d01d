//! Block-states: parsing a block-state string and matching its properties
//! against the cases of a multipart description.

use vstd::prelude::*;
use crate::error::{ErrorKind, Failure, ResolveError};
use crate::model::ModelProperties;
use crate::table::StringMap;
use crate::text::{find_char, first_index_of, lemma_first_index_of, slice};

verus! {

/// What a condition asks of one property: an unquoted boolean, or a text
/// that may list alternatives separated by `|`.
#[derive(Clone, Debug, PartialEq, Eq)]
pub enum StateValue {
    Bool(bool),
    Text(String),
}

/// A state value as contracts speak of it.
pub enum StateValueView {
    Bool(bool),
    Text(Seq<char>),
}

/// A property together with the value that a condition asks of it.
#[derive(Clone, Debug, PartialEq, Eq)]
pub struct Requirement {
    pub state: String,
    pub value: StateValue,
}

/// Requirements that must all hold.
#[derive(Clone, Debug, PartialEq, Eq)]
pub struct Condition {
    pub and: Vec<Requirement>,
}

/// When a case applies: under one condition, or under any of several.
#[derive(Clone, Debug, PartialEq, Eq)]
pub enum WhenClause {
    Single(Condition),
    Or(Vec<Condition>),
}

/// A case of a multipart description: the models in `apply` are candidates
/// for every block-state that `when` admits. Without `when` the case always
/// applies.
#[derive(Clone, Debug, PartialEq, Eq)]
pub struct MultipartCase {
    pub when: Option<WhenClause>,
    pub apply: Vec<ModelProperties>,
}

/// A parsed block-state string: the block's name and its properties.
#[derive(Clone, Debug, PartialEq, Eq)]
pub struct BlockStateKey {
    pub name: String,
    pub props: StringMap,
}

impl StateValue {
    /// The value as a mathematical value.
    pub open spec fn view(&self) -> StateValueView {
        match self {
            StateValue::Bool(b) => StateValueView::Bool(*b),
            StateValue::Text(s) => StateValueView::Text(s@),
        }
    }
}

/// `s` without its trailing run of the character `c`.
pub open spec fn trim_end(s: Seq<char>, c: char) -> Seq<char>
    decreases s.len(),
{
    if s.len() > 0 && s.last() == c {
        trim_end(s.drop_last(), c)
    } else {
        s
    }
}

/// The name part of a block-state string: what stands before the first `[`.
pub open spec fn key_name(block: Seq<char>) -> Seq<char> {
    block.take(first_index_of(block, '[', 0))
}

/// The property part of a block-state string: what follows the first `[`,
/// without the closing brackets at its end; empty if there is no `[`.
pub open spec fn key_props_text(block: Seq<char>) -> Seq<char> {
    let i = first_index_of(block, '[', 0);
    if i < block.len() {
        trim_end(block.skip(i + 1), ']')
    } else {
        Seq::empty()
    }
}

/// One `key=value` pair, split at its first `=`; a pair without `=` is a
/// parse failure that names the pair.
pub open spec fn decode_pair(pair: Seq<char>) -> Result<(Seq<char>, Seq<char>), Failure> {
    let j = first_index_of(pair, '=', 0);
    if j < pair.len() {
        Ok((pair.take(j), pair.skip(j + 1)))
    } else {
        Err(Failure { kind: ErrorKind::Parse, subject: pair })
    }
}

/// The pairs of `s` from position `from` on: `s` is cut at every `,`, and
/// each piece is one pair. The first piece that fails fails the whole.
pub open spec fn decode_from(s: Seq<char>, from: int) -> Result<
    Seq<(Seq<char>, Seq<char>)>,
    Failure,
>
    decreases s.len() - from + 1,
{
    if from < 0 || from > s.len() {
        Ok(Seq::empty())
    } else {
        let i = first_index_of(s, ',', from);
        match decode_pair(s.subrange(from, i)) {
            Err(e) => Err(e),
            Ok(pair) => if i >= s.len() {
                Ok(seq![pair])
            } else {
                proof {
                    lemma_first_index_of(s, ',', from);
                }
                match decode_from(s, i + 1) {
                    Err(e) => Err(e),
                    Ok(rest) => Ok(seq![pair] + rest),
                }
            },
        }
    }
}

/// The pairs that a property text writes, in order; none for an empty text.
pub open spec fn decode_props_spec(props: Seq<char>) -> Result<
    Seq<(Seq<char>, Seq<char>)>,
    Failure,
> {
    if props.len() == 0 {
        Ok(Seq::empty())
    } else {
        decode_from(props, 0)
    }
}

/// Whether `p` is one of the pieces into which `s` falls when it is cut at
/// every `|`.
pub open spec fn is_piece(s: Seq<char>, p: Seq<char>) -> bool {
    exists|i: int, j: int|
        0 <= i <= j <= s.len() && #[trigger] s.subrange(i, j) == p && (i == 0 || s[i - 1] == '|')
            && (j == s.len() || s[j] == '|') && !p.contains('|')
}

/// The boolean that a text writes, if it writes one.
pub open spec fn text_as_bool(s: Seq<char>) -> Option<bool> {
    if s == "true"@ {
        Some(true)
    } else if s == "false"@ {
        Some(false)
    } else {
        None
    }
}

/// Whether the actual value of a property is among the alternatives that
/// `required` accepts. A boolean accepts the text that writes it. A text
/// accepts an equal text, any of its own pieces between `|`, and a text of
/// which it is such a piece.
pub open spec fn value_matches(required: StateValueView, actual: Seq<char>) -> bool {
    match required {
        StateValueView::Bool(b) => text_as_bool(actual) == Some(b),
        StateValueView::Text(s) => s == actual || is_piece(s, actual) || is_piece(actual, s),
    }
}

/// Whether `props` gives the property of `req` a value that `req` accepts.
/// A property that `props` lacks fails the requirement.
pub open spec fn requirement_holds(req: Requirement, props: Map<Seq<char>, Seq<char>>) -> bool {
    props.contains_key(req.state@) && value_matches(req.value@, props[req.state@])
}

/// Whether every requirement of `c` holds. A condition without
/// requirements always holds.
pub open spec fn condition_holds(c: Condition, props: Map<Seq<char>, Seq<char>>) -> bool {
    forall|i: int| 0 <= i < c.and@.len() ==> requirement_holds(#[trigger] c.and@[i], props)
}

/// Whether the clause admits `props`.
pub open spec fn when_holds(w: WhenClause, props: Map<Seq<char>, Seq<char>>) -> bool {
    match w {
        WhenClause::Single(c) => condition_holds(c, props),
        WhenClause::Or(cs) => exists|i: int|
            0 <= i < cs@.len() && condition_holds(#[trigger] cs@[i], props),
    }
}

/// Whether the case applies to a block-state with the properties `props`.
pub open spec fn case_applies(case: MultipartCase, props: Map<Seq<char>, Seq<char>>) -> bool {
    match case.when {
        None => true,
        Some(w) => when_holds(w, props),
    }
}

/// Compares a required value with an actual one by the `==` of
/// `minecraft_assets::schemas::blockstates::multipart::StateValue`, with the
/// required value on the left and the actual text as a `String` value on
/// the right. The contract restates that comparison: a boolean equals the
/// text `true` or `false` that writes it; two texts are equal if they are
/// the same, or if one is a piece of the other cut at `|`.
#[verifier::external_body]
fn state_value_eq(required: &StateValue, actual: &str) -> (b: bool)
    ensures
        b == value_matches(required@, actual@),
{
    let left = match required {
        StateValue::Bool(b) => minecraft_assets::schemas::blockstates::multipart::StateValue::Bool(
            *b,
        ),
        StateValue::Text(s) => minecraft_assets::schemas::blockstates::multipart::StateValue::String(
            s.clone(),
        ),
    };
    left == minecraft_assets::schemas::blockstates::multipart::StateValue::String(actual.to_owned())
}

/// Whether every requirement of `c` holds for `props`.
pub fn condition_applies(c: &Condition, props: &StringMap) -> (b: bool)
    ensures
        b == condition_holds(*c, props@),
{
    let mut i: usize = 0;
    while i < c.and.len()
        invariant
            0 <= i <= c.and@.len(),
            forall|j: int| 0 <= j < i ==> requirement_holds(#[trigger] c.and@[j], props@),
        decreases c.and@.len() - i,
    {
        let req = &c.and[i];
        let holds = match props.get(req.state.as_str()) {
            Some(actual) => state_value_eq(&req.value, actual),
            None => false,
        };
        if !holds {
            assert(!requirement_holds(c.and@[i as int], props@));
            return false;
        }
        i += 1;
    }
    true
}

/// Whether any of the conditions `cs` holds for `props`.
fn any_condition_applies(cs: &Vec<Condition>, props: &StringMap) -> (b: bool)
    ensures
        b == exists|i: int| 0 <= i < cs@.len() && condition_holds(#[trigger] cs@[i], props@),
{
    let mut i: usize = 0;
    while i < cs.len()
        invariant
            0 <= i <= cs@.len(),
            forall|j: int| 0 <= j < i ==> !condition_holds(#[trigger] cs@[j], props@),
        decreases cs@.len() - i,
    {
        if condition_applies(&cs[i], props) {
            assert(condition_holds(cs@[i as int], props@));
            return true;
        }
        i += 1;
    }
    false
}

/// Whether the clause admits `props`.
pub fn when_applies(w: &WhenClause, props: &StringMap) -> (b: bool)
    ensures
        b == when_holds(*w, props@),
{
    match w {
        WhenClause::Single(c) => condition_applies(c, props),
        WhenClause::Or(cs) => any_condition_applies(cs, props),
    }
}

impl MultipartCase {
    /// Whether the case applies to a block-state with the properties
    /// `props`.
    pub fn applies(&self, props: &StringMap) -> (b: bool)
        ensures
            b == case_applies(*self, props@),
    {
        match &self.when {
            None => true,
            Some(w) => when_applies(w, props),
        }
    }
}

/// A condition without requirements holds for every block-state, and so
/// does a case without a `when` clause.
pub proof fn lemma_empty_predicate_matches(
    c: Condition,
    case: MultipartCase,
    props: Map<Seq<char>, Seq<char>>,
)
    requires
        c.and@.len() == 0,
        case.when is None,
    ensures
        condition_holds(c, props),
        case_applies(case, props),
{
}

/// A text with alternatives accepts each alternative that stands between
/// two `|`, or between a `|` and an end of the text.
pub proof fn lemma_alternative_matches(s: Seq<char>, i: int, j: int)
    requires
        0 <= i <= j <= s.len(),
        i == 0 || s[i - 1] == '|',
        j == s.len() || s[j] == '|',
        forall|k: int| i <= k < j ==> s[k] != '|',
    ensures
        value_matches(StateValueView::Text(s), s.subrange(i, j)),
{
    let p = s.subrange(i, j);
    assert(!p.contains('|')) by {
        if p.contains('|') {
            let k = choose|k: int| 0 <= k < p.len() && p[k] == '|';
            assert(s[i + k] == '|');
        }
    }
    assert(is_piece(s, p));
}

/// Trims the trailing run of `c` from `s`.
pub fn trim_end_matches(s: &str, c: char) -> (r: String)
    ensures
        r@ == trim_end(s@, c),
{
    let mut n = s.unicode_len();
    assert(s@.take(n as int) =~= s@);
    while n > 0 && s.get_char(n - 1) == c
        invariant
            n <= s@.len(),
            trim_end(s@, c) == trim_end(s@.take(n as int), c),
        decreases n,
    {
        assert(s@.take(n as int).drop_last() =~= s@.take(n - 1));
        n -= 1;
    }
    assert(s@.take(n as int) =~= s@.subrange(0, n as int));
    slice(s, 0, n)
}

/// Splits one `key=value` pair at its first `=`.
fn decode_pair_exec(pair: &str) -> (r: Result<(String, String), ResolveError>)
    ensures
        match r {
            Ok((k, v)) => decode_pair(pair@) == Ok::<(Seq<char>, Seq<char>), Failure>((k@, v@)),
            Err(e) => decode_pair(pair@) == Err::<(Seq<char>, Seq<char>), Failure>(e@),
        },
{
    let n = pair.unicode_len();
    let j = find_char(pair, '=', 0);
    if j < n {
        let k = slice(pair, 0, j);
        let v = slice(pair, j + 1, n);
        assert(k@ =~= pair@.take(j as int));
        assert(v@ =~= pair@.skip(j + 1));
        Ok((k, v))
    } else {
        Err(ResolveError::new(ErrorKind::Parse, pair))
    }
}

/// Reads the properties that `props` writes as `key=value` pairs separated
/// by commas. A later pair for a key replaces an earlier one. A pair without
/// `=` is a parse failure.
pub fn decode_props(props: &str) -> (r: Result<StringMap, ResolveError>)
    ensures
        match r {
            Ok(m) => decode_props_spec(props@) == Ok::<Seq<(Seq<char>, Seq<char>)>, Failure>(
                m.pairs(),
            ),
            Err(e) => decode_props_spec(props@) == Err::<Seq<(Seq<char>, Seq<char>)>, Failure>(e@),
        },
{
    let mut res = StringMap::new();
    let n = props.unicode_len();
    if n == 0 {
        return Ok(res);
    }
    let mut from: usize = 0;
    loop
        invariant
            n == props@.len(),
            n > 0,
            0 <= from <= n,
            match decode_from(props@, from as int) {
                Ok(rest) => decode_from(props@, 0) == Ok::<Seq<(Seq<char>, Seq<char>)>, Failure>(
                    res.pairs() + rest,
                ),
                Err(e) => decode_from(props@, 0) == Err::<Seq<(Seq<char>, Seq<char>)>, Failure>(e),
            },
        decreases n - from,
    {
        let i = find_char(props, ',', from);
        let piece = slice(props, from, i);
        match decode_pair_exec(piece.as_str()) {
            Err(e) => {
                assert(decode_from(props@, from as int) is Err);
                return Err(e);
            },
            Ok((k, v)) => {
                let ghost before = res.pairs();
                res.insert(k.as_str(), v.as_str());
                if i >= n {
                    assert(before + seq![(k@, v@)] =~= res.pairs());
                    return Ok(res);
                }
                proof {
                    match decode_from(props@, i + 1) {
                        Ok(rest) => {
                            assert(before + (seq![(k@, v@)] + rest) =~= res.pairs() + rest);
                        },
                        Err(e) => {},
                    }
                }
                from = i + 1;
            },
        }
    }
}

/// Splits a block-state string at its first `[` into the name and the
/// property text, from whose end the closing brackets are taken.
pub fn split_block_state(block: &str) -> (r: (String, String))
    ensures
        r.0@ == key_name(block@),
        r.1@ == key_props_text(block@),
{
    let n = block.unicode_len();
    let at = find_char(block, '[', 0);
    let name = slice(block, 0, at);
    assert(name@ =~= block@.take(at as int));
    let props_text = if at < n {
        let rest = slice(block, at + 1, n);
        assert(rest@ =~= block@.skip(at + 1));
        trim_end_matches(rest.as_str(), ']')
    } else {
        String::new()
    };
    (name, props_text)
}

/// Parses a block-state string `name[k1=v1,k2=v2,...]`: the name is what
/// stands before the first `[`, the properties are what follows it without
/// the closing brackets.
pub fn parse_block_state(block: &str) -> (r: Result<BlockStateKey, ResolveError>)
    ensures
        match r {
            Ok(key) => key.name@ == key_name(block@) && decode_props_spec(key_props_text(block@))
                == Ok::<Seq<(Seq<char>, Seq<char>)>, Failure>(key.props.pairs()),
            Err(e) => decode_props_spec(key_props_text(block@)) == Err::<
                Seq<(Seq<char>, Seq<char>)>,
                Failure,
            >(e@),
        },
{
    let (name, props_text) = split_block_state(block);
    match decode_props(props_text.as_str()) {
        Ok(props) => Ok(BlockStateKey { name, props }),
        Err(e) => Err(e),
    }
}

} // verus!
