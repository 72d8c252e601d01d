//! Resolution: from a block-state string to its models, with parents merged
//! and texture variables followed to literal paths.

use vstd::prelude::*;
use crate::assets::AssetPack;
use crate::error::{is_cycle, ErrorKind, Failure, ResolveError};
use crate::blockstate::{
    case_applies, decode_props, decode_props_spec, key_name, key_props_text, split_block_state,
    MultipartCase,
};
use crate::grid::Blocks;
use crate::model::{
    block_names, BlockModel, BlockModels, Element, ModelDefinition, ModelProperties,
    ProcessedModel, ProcessedView, Textures,
};
use crate::text::{name_index, same_text};
use crate::tint::{get_tint_for_block, tint_for, Tint};
use crate::table::{entries_map, lemma_entries_map_finite, StringMap};
use crate::walk::{lemma_walk_never_ends, survives};
use crate::text::slice;

verus! {

/// Whether a texture value refers to another variable.
pub open spec fn is_reference(value: Seq<char>) -> bool {
    value.len() > 0 && value[0] == '#'
}

/// The literal path that `value` stands for in the table `map`: references
/// are followed until a literal remains. A reference to a variable that the
/// table lacks is `NotFound`. At most `fuel` references are followed; a
/// value that needs more is a `Cycle`. With the number of entries as fuel,
/// only a chain that passes some variable twice needs more.
pub open spec fn resolve_value(map: Map<Seq<char>, Seq<char>>, value: Seq<char>, fuel: nat)
    -> Result<Seq<char>, Failure>
    decreases fuel,
{
    if is_reference(value) {
        let target = value.skip(1);
        if !map.contains_key(target) {
            Err(Failure { kind: ErrorKind::NotFound, subject: target })
        } else if fuel == 0 {
            Err(Failure { kind: ErrorKind::Cycle, subject: target })
        } else {
            resolve_value(map, map[target], (fuel - 1) as nat)
        }
    } else {
        Ok(value)
    }
}

/// The first `n` entries of `pairs`, each with the literal path that the
/// table's value for its name stands for. The first entry that fails fails
/// the whole.
pub open spec fn resolve_all(pairs: Seq<(Seq<char>, Seq<char>)>, n: nat) -> Result<
    Seq<(Seq<char>, Seq<char>)>,
    Failure,
>
    decreases n,
{
    if n == 0 {
        Ok(Seq::empty())
    } else {
        match resolve_all(pairs, (n - 1) as nat) {
            Err(e) => Err(e),
            Ok(done) => {
                let name = pairs[n - 1].0;
                let map = entries_map(pairs);
                match resolve_value(map, map[name], pairs.len()) {
                    Err(e) => Err(e),
                    Ok(v) => Ok(done.push((name, v))),
                }
            },
        }
    }
}

/// A value that resolves, resolves to a literal.
pub proof fn lemma_resolved_is_literal(
    map: Map<Seq<char>, Seq<char>>,
    value: Seq<char>,
    fuel: nat,
)
    ensures
        resolve_value(map, value, fuel) matches Ok(v) ==> !is_reference(v),
    decreases fuel,
{
    if is_reference(value) && fuel > 0 && map.contains_key(value.skip(1)) {
        lemma_resolved_is_literal(map, map[value.skip(1)], (fuel - 1) as nat);
    }
}

/// A table that resolves holds the same names in the same order, and only
/// literal values.
pub proof fn lemma_resolve_all_literal(pairs: Seq<(Seq<char>, Seq<char>)>, n: nat)
    requires
        n <= pairs.len(),
    ensures
        resolve_all(pairs, n) matches Ok(done) ==> {
            &&& done.len() == n
            &&& forall|i: int|
                0 <= i < n ==> (#[trigger] done[i]).0 == pairs[i].0 && !is_reference(done[i].1)
        },
    decreases n,
{
    if n > 0 {
        lemma_resolve_all_literal(pairs, (n - 1) as nat);
        let map = entries_map(pairs);
        lemma_resolved_is_literal(map, map[pairs[n - 1].0], pairs.len());
    }
}

/// The step from a variable to the variable that its value refers to.
pub open spec fn reference_step(map: Map<Seq<char>, Seq<char>>) -> spec_fn(Seq<char>) -> Option<
    Seq<char>,
> {
    |name: Seq<char>|
        if map.contains_key(name) && is_reference(map[name]) {
            Some(map[name].skip(1))
        } else {
            None
        }
}

/// A reference is a `Cycle` with some fuel exactly if the walk from
/// variable to variable makes that many steps within the table.
proof fn lemma_reference_cycle_iff_survives(
    map: Map<Seq<char>, Seq<char>>,
    value: Seq<char>,
    fuel: nat,
)
    requires
        is_reference(value),
    ensures
        is_cycle(resolve_value(map, value, fuel)) <==> survives(
            reference_step(map),
            map.dom(),
            value.skip(1),
            fuel,
        ),
    decreases fuel,
{
    let target = value.skip(1);
    if map.contains_key(target) && fuel > 0 {
        if is_reference(map[target]) {
            lemma_reference_cycle_iff_survives(map, map[target], (fuel - 1) as nat);
        } else {
            assert(resolve_value(map, map[target], (fuel - 1) as nat) is Ok);
        }
    }
}

/// A value that is a `Cycle` with the number of entries as fuel is a
/// `Cycle` with any fuel: its references pass some variable twice and
/// never end.
pub proof fn lemma_reference_cycle_is_endless(
    pairs: Seq<(Seq<char>, Seq<char>)>,
    value: Seq<char>,
    fuel: nat,
)
    requires
        is_cycle(resolve_value(entries_map(pairs), value, pairs.len())),
    ensures
        is_cycle(resolve_value(entries_map(pairs), value, fuel)),
{
    let map = entries_map(pairs);
    lemma_entries_map_finite(pairs);
    lemma_reference_cycle_iff_survives(map, value, pairs.len());
    lemma_walk_never_ends(reference_step(map), map.dom(), value.skip(1), pairs.len(), fuel);
    lemma_reference_cycle_iff_survives(map, value, fuel);
}

/// A value that resolves, or that misses a variable, does so whatever the
/// fuel beyond what it needs.
pub proof fn lemma_resolve_is_stable(
    map: Map<Seq<char>, Seq<char>>,
    value: Seq<char>,
    fuel: nat,
    more: nat,
)
    requires
        fuel <= more,
        !is_cycle(resolve_value(map, value, fuel)),
    ensures
        resolve_value(map, value, more) == resolve_value(map, value, fuel),
    decreases fuel,
{
    if is_reference(value) && map.contains_key(value.skip(1)) && fuel > 0 {
        lemma_resolve_is_stable(map, map[value.skip(1)], (fuel - 1) as nat, (more - 1) as nat);
    }
}

/// A variable whose value refers to the variable itself is a `Cycle`.
pub proof fn lemma_self_reference_cycles(
    map: Map<Seq<char>, Seq<char>>,
    name: Seq<char>,
    fuel: nat,
)
    requires
        map.contains_key(name),
        is_reference(map[name]),
        map[name].skip(1) == name,
    ensures
        resolve_value(map, map[name], fuel) == Err::<Seq<char>, Failure>(
            Failure { kind: ErrorKind::Cycle, subject: name },
        ),
    decreases fuel,
{
    if fuel > 0 {
        lemma_self_reference_cycles(map, name, (fuel - 1) as nat);
    }
}

/// Resolving a block-state string twice gives the same models and the same
/// tint.
pub proof fn lemma_same_block_same_models(
    pack: AssetPack,
    block: Seq<char>,
    first: Result<BlockModelView, Failure>,
    second: Result<BlockModelView, Failure>,
)
    requires
        first == block_entry(pack, block),
        second == block_entry(pack, block),
    ensures
        first == second,
{
}

/// Once the first `n` entries fail, so do the first `m` for every larger
/// `m`, and with the same failure.
pub proof fn lemma_resolve_all_fails(pairs: Seq<(Seq<char>, Seq<char>)>, n: nat, m: nat)
    requires
        n <= m,
        resolve_all(pairs, n) is Err,
    ensures
        resolve_all(pairs, m) == resolve_all(pairs, n),
    decreases m,
{
    if n < m {
        lemma_resolve_all_fails(pairs, n, (m - 1) as nat);
    }
}

/// Follows `value` through `textures` to a literal path.
fn resolve_one(textures: &Textures, value: &str) -> (r: Result<String, ResolveError>)
    ensures
        match r {
            Ok(v) => resolve_value(textures@, value@, textures.pairs().len()) == Ok::<
                Seq<char>,
                Failure,
            >(v@),
            Err(e) => resolve_value(textures@, value@, textures.pairs().len()) == Err::<
                Seq<char>,
                Failure,
            >(e@),
        },
{
    let total = textures.len();
    let mut fuel = total;
    let mut current = value.to_owned();
    loop
        invariant
            total == textures.pairs().len(),
            fuel <= total,
            resolve_value(textures@, value@, total as nat) == resolve_value(
                textures@,
                current@,
                fuel as nat,
            ),
        decreases fuel,
    {
        let n = current.as_str().unicode_len();
        if n > 0 && current.as_str().get_char(0) == '#' {
            let target = slice(current.as_str(), 1, n);
            assert(target@ == current@.skip(1));
            match textures.get(target.as_str()) {
                None => {
                    return Err(ResolveError::new(ErrorKind::NotFound, target.as_str()));
                },
                Some(next) => {
                    if fuel == 0 {
                        return Err(ResolveError::new(ErrorKind::Cycle, target.as_str()));
                    }
                    current = next.to_owned();
                    fuel = fuel - 1;
                },
            }
        } else {
            return Ok(current);
        }
    }
}

/// Resolves texture substitutions: every variable of the table gets the
/// literal path that its value stands for. A reference to a variable that
/// the table lacks is `NotFound`; a chain of references that loops is a
/// `Cycle`.
pub fn resolve_textures_completely(textures: Textures) -> (r: Result<Textures, ResolveError>)
    ensures
        match r {
            Ok(t) => resolve_all(textures.pairs(), textures.pairs().len()) == Ok::<
                Seq<(Seq<char>, Seq<char>)>,
                Failure,
            >(t.pairs()),
            Err(e) => resolve_all(textures.pairs(), textures.pairs().len()) == Err::<
                Seq<(Seq<char>, Seq<char>)>,
                Failure,
            >(e@),
        },
{
    let mut resolved = StringMap::new();
    let n = textures.len();
    let mut i: usize = 0;
    while i < n
        invariant
            n == textures.pairs().len(),
            0 <= i <= n,
            resolve_all(textures.pairs(), i as nat) == Ok::<Seq<(Seq<char>, Seq<char>)>, Failure>(
                resolved.pairs(),
            ),
        decreases n - i,
    {
        let name = textures.key_at(i);
        let value = textures.current_at(i);
        match resolve_one(&textures, value) {
            Err(e) => {
                proof {
                    lemma_resolve_all_fails(textures.pairs(), (i + 1) as nat, n as nat);
                }
                return Err(e);
            },
            Ok(v) => {
                resolved.insert(name, v.as_str());
            },
        }
        i += 1;
    }
    Ok(resolved)
}

/// The quarter turns that a rotation in degrees makes, if it is one of 0,
/// 90, 180 and 270.
pub open spec fn quarter_turns(degrees: int) -> Option<u8> {
    if degrees == 0 {
        Some(0u8)
    } else if degrees == 90 {
        Some(1u8)
    } else if degrees == 180 {
        Some(2u8)
    } else if degrees == 270 {
        Some(3u8)
    } else {
        None
    }
}

/// The texture entries of the `n` most basic models of a chain, the most
/// basic first, so that an entry of a derived model replaces one of an
/// ancestor. The chain lists the requested model first.
pub open spec fn merged_pairs(chain: Seq<ModelDefinition>, n: nat) -> Seq<(Seq<char>, Seq<char>)>
    decreases n,
{
    if n == 0 || n > chain.len() {
        Seq::empty()
    } else {
        let before = merged_pairs(chain, (n - 1) as nat);
        match chain[chain.len() - n].textures {
            Some(t) => before + t.pairs(),
            None => before,
        }
    }
}

/// The elements of the `n` most basic models of a chain, the most basic
/// first, one list after the other.
pub open spec fn merged_elements(chain: Seq<ModelDefinition>, n: nat) -> Seq<Element>
    decreases n,
{
    if n == 0 || n > chain.len() {
        Seq::empty()
    } else {
        let before = merged_elements(chain, (n - 1) as nat);
        match chain[chain.len() - n].elements {
            Some(es) => before + es@,
            None => before,
        }
    }
}

/// The resolved model of one reference: the rotations must be quarter
/// turns, else the reference is malformed; then the chain of parents is
/// loaded, its texture tables and element lists are merged, and the merged
/// table is resolved to literal paths.
pub open spec fn processed(pack: AssetPack, props: ModelProperties) -> Result<
    ProcessedView,
    Failure,
> {
    if quarter_turns(props.x as int) is None || quarter_turns(props.y as int) is None {
        Err(Failure { kind: ErrorKind::Parse, subject: props.model@ })
    } else {
        match pack.chain_of(props.model@) {
            Err(e) => Err(e),
            Ok(chain) => {
                let pairs = merged_pairs(chain, chain.len());
                match resolve_all(pairs, pairs.len()) {
                    Err(e) => Err(e),
                    Ok(textures) => Ok(
                        ProcessedView {
                            x_turns: quarter_turns(props.x as int)->Some_0,
                            y_turns: quarter_turns(props.y as int)->Some_0,
                            uv_lock: props.uv_lock,
                            textures,
                            elements: merged_elements(chain, chain.len()),
                        },
                    ),
                }
            },
        }
    }
}

/// The resolved models of the first `n` references. The first reference
/// that fails fails the whole.
pub open spec fn processed_all(pack: AssetPack, models: Seq<ModelProperties>, n: nat) -> Result<
    Seq<ProcessedView>,
    Failure,
>
    decreases n,
{
    if n == 0 {
        Ok(Seq::empty())
    } else {
        match processed_all(pack, models, (n - 1) as nat) {
            Err(e) => Err(e),
            Ok(done) => match processed(pack, models[n - 1]) {
                Err(e) => Err(e),
                Ok(m) => Ok(done.push(m)),
            },
        }
    }
}

/// The resolved models of a list as mathematical values.
pub open spec fn processed_views(models: Seq<ProcessedModel>) -> Seq<ProcessedView> {
    Seq::new(models.len(), |i: int| models[i]@)
}

/// Once the first `n` references fail, so do the first `m` for every larger
/// `m`, and with the same failure.
pub proof fn lemma_processed_all_fails(
    pack: AssetPack,
    models: Seq<ModelProperties>,
    n: nat,
    m: nat,
)
    requires
        n <= m,
        processed_all(pack, models, n) is Err,
    ensures
        processed_all(pack, models, m) == processed_all(pack, models, n),
    decreases m,
{
    if n < m {
        lemma_processed_all_fails(pack, models, n, (m - 1) as nat);
    }
}

/// The quarter turns that a rotation in degrees makes.
pub fn quarter_turns_of(degrees: i32) -> (r: Option<u8>)
    ensures
        r == quarter_turns(degrees as int),
{
    if degrees == 0 {
        Some(0)
    } else if degrees == 90 {
        Some(1)
    } else if degrees == 180 {
        Some(2)
    } else if degrees == 270 {
        Some(3)
    } else {
        None
    }
}

/// Appends copies of `source` to `target`.
fn append_elements(target: &mut Vec<Element>, source: &Vec<Element>)
    ensures
        final(target)@ == old(target)@ + source@,
{
    let mut i: usize = 0;
    assert(target@ =~= old(target)@ + source@.take(0));
    while i < source.len()
        invariant
            0 <= i <= source@.len(),
            target@ == old(target)@ + source@.take(i as int),
        decreases source@.len() - i,
    {
        target.push(source[i].duplicate());
        assert(target@ =~= old(target)@ + source@.take(i + 1));
        i += 1;
    }
    assert(source@.take(source@.len() as int) =~= source@);
}

/// Resolves one model reference.
fn process_one(asset_pack: &AssetPack, props: &ModelProperties) -> (r: Result<
    ProcessedModel,
    ResolveError,
>)
    ensures
        match r {
            Ok(m) => processed(*asset_pack, *props) == Ok::<ProcessedView, Failure>(m@),
            Err(e) => processed(*asset_pack, *props) == Err::<ProcessedView, Failure>(e@),
        },
{
    let (x_turns, y_turns) = match (quarter_turns_of(props.x), quarter_turns_of(props.y)) {
        (Some(x), Some(y)) => (x, y),
        _ => {
            return Err(ResolveError::new(ErrorKind::Parse, props.model.as_str()));
        },
    };
    let chain = match asset_pack.load_block_model_recursive(props.model.as_str()) {
        Ok(chain) => chain,
        Err(e) => {
            return Err(e);
        },
    };
    let ghost models = Seq::new(chain@.len(), |k: int| *chain@[k]);
    let mut textures = StringMap::new();
    let mut elements: Vec<Element> = Vec::new();
    let total = chain.len();
    let mut done: usize = 0;
    while done < total
        invariant
            total == chain@.len(),
            models == Seq::new(chain@.len(), |k: int| *chain@[k]),
            0 <= done <= total,
            textures.pairs() == merged_pairs(models, done as nat),
            elements@ == merged_elements(models, done as nat),
        decreases total - done,
    {
        let model = chain[total - done - 1];
        assert(*model == models[models.len() - (done + 1)]);
        match &model.textures {
            Some(t) => {
                textures.merge(t);
            },
            None => {},
        }
        match &model.elements {
            Some(es) => {
                append_elements(&mut elements, es);
            },
            None => {},
        }
        done += 1;
    }
    match resolve_textures_completely(textures) {
        Err(e) => Err(e),
        Ok(textures) => Ok(
            ProcessedModel { x_turns, y_turns, uv_lock: props.uv_lock, textures, elements },
        ),
    }
}

/// Resolves the models that a block-state refers to: for each reference, in
/// order, the chain of parents is merged from the most basic ancestor to
/// the model itself, and the texture variables are resolved.
pub fn process_model(asset_pack: &AssetPack, models: Vec<ModelProperties>) -> (r: Result<
    Vec<ProcessedModel>,
    ResolveError,
>)
    ensures
        match r {
            Ok(done) => processed_all(*asset_pack, models@, models@.len()) == Ok::<
                Seq<ProcessedView>,
                Failure,
            >(processed_views(done@)),
            Err(e) => processed_all(*asset_pack, models@, models@.len()) == Err::<
                Seq<ProcessedView>,
                Failure,
            >(e@),
        },
{
    let mut processed_models: Vec<ProcessedModel> = Vec::new();
    let mut i: usize = 0;
    assert(processed_views(processed_models@) =~= Seq::<ProcessedView>::empty());
    while i < models.len()
        invariant
            0 <= i <= models@.len(),
            processed_models@.len() == i,
            processed_all(*asset_pack, models@, i as nat) == Ok::<Seq<ProcessedView>, Failure>(
                processed_views(processed_models@),
            ),
        decreases models@.len() - i,
    {
        match process_one(asset_pack, &models[i]) {
            Err(e) => {
                proof {
                    lemma_processed_all_fails(
                        *asset_pack,
                        models@,
                        (i + 1) as nat,
                        models@.len(),
                    );
                }
                return Err(e);
            },
            Ok(m) => {
                let ghost before = processed_views(processed_models@);
                let ghost added = m@;
                processed_models.push(m);
                assert(processed_views(processed_models@) =~= before.push(added));
            },
        }
        i += 1;
    }
    Ok(processed_models)
}

/// The models that the first `n` cases select for a block-state with the
/// properties `props`: every case that applies adds its first candidate.
/// A case that applies and has no candidate is `NotFound`, about `block`.
pub open spec fn selected_models(
    cases: Seq<MultipartCase>,
    props: Map<Seq<char>, Seq<char>>,
    block: Seq<char>,
    n: nat,
) -> Result<Seq<ModelProperties>, Failure>
    decreases n,
{
    if n == 0 {
        Ok(Seq::empty())
    } else {
        match selected_models(cases, props, block, (n - 1) as nat) {
            Err(e) => Err(e),
            Ok(done) => {
                let case = cases[n - 1];
                if !case_applies(case, props) {
                    Ok(done)
                } else if case.apply@.len() == 0 {
                    Err(Failure { kind: ErrorKind::NotFound, subject: block })
                } else {
                    Ok(done.push(case.apply@[0]))
                }
            },
        }
    }
}

/// The tint of a block: one is computed for the power wire only.
pub open spec fn block_tint(name: Seq<char>, props: Map<Seq<char>, Seq<char>>) -> Option<Tint> {
    if name == "minecraft:redstone_wire"@ {
        Some(tint_for(name, props, 0))
    } else {
        None
    }
}

/// The model references and the tint of the block-state `block`: the cases
/// of the block's name are loaded, the properties are read, and the cases
/// select the models.
pub open spec fn block_model_spec(pack: AssetPack, block: Seq<char>) -> Result<
    (Seq<ModelProperties>, Option<Tint>),
    Failure,
> {
    let name = key_name(block);
    match pack.blockstates_of(name) {
        Err(e) => Err(e),
        Ok(cases) => match decode_props_spec(key_props_text(block)) {
            Err(e) => Err(e),
            Ok(pairs) => {
                let props = entries_map(pairs);
                match selected_models(cases@, props, block, cases@.len()) {
                    Err(e) => Err(e),
                    Ok(models) => Ok((models, block_tint(name, props))),
                }
            },
        },
    }
}

/// Once the first `n` cases fail, so do the first `m` for every larger `m`,
/// and with the same failure.
pub proof fn lemma_selected_models_fails(
    cases: Seq<MultipartCase>,
    props: Map<Seq<char>, Seq<char>>,
    block: Seq<char>,
    n: nat,
    m: nat,
)
    requires
        n <= m,
        selected_models(cases, props, block, n) is Err,
    ensures
        selected_models(cases, props, block, m) == selected_models(cases, props, block, n),
    decreases m,
{
    if n < m {
        lemma_selected_models_fails(cases, props, block, n, (m - 1) as nat);
    }
}

/// Finds the models and the tint of a block-state string. The cases of the
/// block's name are matched in order against the properties; every case
/// that applies contributes its first candidate.
pub fn get_block_model(asset_pack: &AssetPack, block: &str) -> (r: Result<
    (Vec<ModelProperties>, Option<Tint>),
    ResolveError,
>)
    ensures
        match r {
            Ok((models, tint)) => block_model_spec(*asset_pack, block@) == Ok::<
                (Seq<ModelProperties>, Option<Tint>),
                Failure,
            >((models@, tint)),
            Err(e) => block_model_spec(*asset_pack, block@) == Err::<
                (Seq<ModelProperties>, Option<Tint>),
                Failure,
            >(e@),
        },
{
    let (name, props_text) = split_block_state(block);
    let cases = match asset_pack.load_blockstates(name.as_str()) {
        Ok(cases) => cases,
        Err(e) => {
            return Err(e);
        },
    };
    let props = match decode_props(props_text.as_str()) {
        Ok(props) => props,
        Err(e) => {
            return Err(e);
        },
    };
    let tint = if same_text(name.as_str(), "minecraft:redstone_wire") {
        Some(get_tint_for_block(name.as_str(), &props, 0))
    } else {
        None
    };
    let mut models: Vec<ModelProperties> = Vec::new();
    let mut i: usize = 0;
    while i < cases.len()
        invariant
            0 <= i <= cases@.len(),
            asset_pack.blockstates_of(key_name(block@)) == Ok::<Vec<MultipartCase>, Failure>(
                *cases,
            ),
            decode_props_spec(key_props_text(block@)) == Ok::<
                Seq<(Seq<char>, Seq<char>)>,
                Failure,
            >(props.pairs()),
            selected_models(cases@, props@, block@, i as nat) == Ok::<
                Seq<ModelProperties>,
                Failure,
            >(models@),
        decreases cases@.len() - i,
    {
        let case = &cases[i];
        if case.applies(&props) {
            if case.apply.len() == 0 {
                proof {
                    lemma_selected_models_fails(
                        cases@,
                        props@,
                        block@,
                        (i + 1) as nat,
                        cases@.len(),
                    );
                }
                return Err(ResolveError::new(ErrorKind::NotFound, block));
            }
            models.push(case.apply[0].duplicate());
        }
        i += 1;
    }
    Ok((models, tint))
}

/// The models of one block-state as contracts speak of them.
pub struct BlockModelView {
    pub block: Seq<char>,
    pub models: Seq<ProcessedView>,
    pub tint: Option<Tint>,
}

/// The entries of a list as mathematical values.
pub open spec fn block_model_views(entries: Seq<BlockModel>) -> Seq<BlockModelView> {
    Seq::new(
        entries.len(),
        |i: int|
            BlockModelView {
                block: entries[i].block@,
                models: processed_views(entries[i].models@),
                tint: entries[i].tint,
            },
    )
}

/// The block-state strings of the entries, in order.
pub open spec fn view_names(entries: Seq<BlockModelView>) -> Seq<Seq<char>> {
    Seq::new(entries.len(), |i: int| entries[i].block)
}

/// The resolved models and the tint of the block-state `block`.
pub open spec fn block_entry(pack: AssetPack, block: Seq<char>) -> Result<BlockModelView, Failure> {
    match block_model_spec(pack, block) {
        Err(e) => Err(e),
        Ok((refs, tint)) => match processed_all(pack, refs, refs.len()) {
            Err(e) => Err(e),
            Ok(models) => Ok(BlockModelView { block, models, tint }),
        },
    }
}

/// The entries for the first `n` of `blocks`: each block-state that was not
/// seen before is resolved once and appended. The first that fails fails
/// the whole.
pub open spec fn models_for(pack: AssetPack, blocks: Seq<Seq<char>>, n: nat) -> Result<
    Seq<BlockModelView>,
    Failure,
>
    decreases n,
{
    if n == 0 {
        Ok(Seq::empty())
    } else {
        match models_for(pack, blocks, (n - 1) as nat) {
            Err(e) => Err(e),
            Ok(done) => {
                let block = blocks[n - 1];
                if name_index(view_names(done), block, 0) < done.len() {
                    Ok(done)
                } else {
                    match block_entry(pack, block) {
                        Err(e) => Err(e),
                        Ok(entry) => Ok(done.push(entry)),
                    }
                }
            },
        }
    }
}

/// Whether no block-state has two entries.
pub open spec fn one_entry_each(entries: Seq<BlockModelView>) -> bool {
    forall|i: int, j: int| 0 <= i < j < entries.len() ==> entries[i].block != entries[j].block
}

/// Every block-state of the grid is resolved at most once: no two entries
/// are for the same block-state string, and each entry is for a cell of
/// the grid.
pub proof fn lemma_models_for_once(pack: AssetPack, blocks: Seq<Seq<char>>, n: nat)
    requires
        n <= blocks.len(),
    ensures
        models_for(pack, blocks, n) matches Ok(done) ==> one_entry_each(done) && forall|i: int|
            0 <= i < done.len() ==> exists|c: int| 0 <= c < n && blocks[c] == (#[trigger] done[i]).block,
    decreases n,
{
    if n > 0 {
        lemma_models_for_once(pack, blocks, (n - 1) as nat);
        match models_for(pack, blocks, (n - 1) as nat) {
            Err(e) => {},
            Ok(before) => {
                let block = blocks[n - 1];
                if name_index(view_names(before), block, 0) >= before.len() {
                    match block_entry(pack, block) {
                        Err(e) => {},
                        Ok(entry) => {
                            let done = before.push(entry);
                            assert(entry.block == block);
                            assert forall|i: int, j: int|
                                0 <= i < j < done.len() implies done[i].block != done[j].block by {
                                if j == before.len() && done[i].block == block {
                                    crate::text::lemma_found_before(
                                        view_names(before),
                                        block,
                                        0,
                                        i,
                                    );
                                }
                            }
                            assert forall|i: int| 0 <= i < done.len() implies exists|c: int|
                                0 <= c < n && blocks[c] == (#[trigger] done[i]).block by {
                                if i < before.len() {
                                    let c = choose|c: int|
                                        0 <= c < n - 1 && blocks[c] == before[i].block;
                                    assert(blocks[c] == done[i].block);
                                } else {
                                    assert(blocks[n - 1] == done[i].block);
                                }
                            }
                        },
                    }
                } else {
                    assert forall|i: int| 0 <= i < before.len() implies exists|c: int|
                        0 <= c < n && blocks[c] == (#[trigger] before[i]).block by {
                        let c = choose|c: int| 0 <= c < n - 1 && blocks[c] == before[i].block;
                        assert(blocks[c] == before[i].block);
                    }
                }
            },
        }
    }
}

/// Once the first `n` blocks fail, so do the first `m` for every larger
/// `m`, and with the same failure.
pub proof fn lemma_models_for_fails(pack: AssetPack, blocks: Seq<Seq<char>>, n: nat, m: nat)
    requires
        n <= m,
        models_for(pack, blocks, n) is Err,
    ensures
        models_for(pack, blocks, m) == models_for(pack, blocks, n),
    decreases m,
{
    if n < m {
        lemma_models_for_fails(pack, blocks, n, (m - 1) as nat);
    }
}

/// Resolves one block-state string.
fn resolve_block(asset_pack: &AssetPack, block: &str) -> (r: Result<BlockModel, ResolveError>)
    ensures
        match r {
            Ok(entry) => block_entry(*asset_pack, block@) == Ok::<BlockModelView, Failure>(
                BlockModelView {
                    block: entry.block@,
                    models: processed_views(entry.models@),
                    tint: entry.tint,
                },
            ),
            Err(e) => block_entry(*asset_pack, block@) == Err::<BlockModelView, Failure>(e@),
        },
{
    let (model_properties, tint) = match get_block_model(asset_pack, block) {
        Ok(found) => found,
        Err(e) => {
            return Err(e);
        },
    };
    match process_model(asset_pack, model_properties) {
        Err(e) => Err(e),
        Ok(models) => Ok(BlockModel { block: block.to_owned(), models, tint }),
    }
}

/// Resolves every block-state of the grid. The grid is scanned with `x`
/// outermost and `z` innermost, and each distinct block-state string is
/// resolved once, when it is first met.
pub fn get_block_models_for(asset_pack: &AssetPack, schem: &Blocks) -> (r: Result<
    BlockModels,
    ResolveError,
>)
    ensures
        match r {
            Ok(models) => models_for(*asset_pack, schem@, schem@.len()) == Ok::<
                Seq<BlockModelView>,
                Failure,
            >(block_model_views(models@)),
            Err(e) => models_for(*asset_pack, schem@, schem@.len()) == Err::<
                Seq<BlockModelView>,
                Failure,
            >(e@),
        },
{
    let mut models = BlockModels::new();
    let n = schem.len();
    let mut i: usize = 0;
    assert(block_model_views(models@) =~= Seq::<BlockModelView>::empty());
    while i < n
        invariant
            n == schem@.len(),
            0 <= i <= n,
            models_for(*asset_pack, schem@, i as nat) == Ok::<Seq<BlockModelView>, Failure>(
                block_model_views(models@),
            ),
        decreases n - i,
    {
        let block = schem.block_at_index(i);
        assert(view_names(block_model_views(models@)) =~= block_names(models@));
        if models.get(block).is_none() {
            match resolve_block(asset_pack, block) {
                Err(e) => {
                    proof {
                        lemma_models_for_fails(*asset_pack, schem@, (i + 1) as nat, n as nat);
                    }
                    return Err(e);
                },
                Ok(entry) => {
                    let ghost before = block_model_views(models@);
                    let ghost added = BlockModelView {
                        block: entry.block@,
                        models: processed_views(entry.models@),
                        tint: entry.tint,
                    };
                    models.push(entry);
                    assert(block_model_views(models@) =~= before.push(added));
                },
            }
        }
        i += 1;
    }
    Ok(models)
}

} // verus!
