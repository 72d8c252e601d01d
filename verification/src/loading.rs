//! What to load next: the first block-state description or model that the
//! resolution of a list of block-states would miss in an asset pack.
//!
//! Whoever reads the files asks, loads what is asked for, adds it to the
//! pack and asks again, until nothing is missed.

use vstd::prelude::*;
use crate::assets::{parent_chain, AssetPack};
use crate::blockstate::{key_name, split_block_state};
use crate::error::ErrorKind;
use crate::grid::Blocks;
use crate::model::ModelProperties;
use crate::palette::with_name;
use crate::resolve::{block_model_spec, get_block_model};
use crate::text::{lemma_found_before, lemma_name_index, name_index, same_text};

verus! {

/// An asset to load.
#[derive(Clone, Debug, PartialEq, Eq)]
pub enum AssetRequest {
    /// The block-state description of the block with this name.
    BlockStates(String),
    /// The model with this name.
    Model(String),
}

/// A request as contracts speak of it.
pub enum RequestView {
    BlockStates(Seq<char>),
    Model(Seq<char>),
}

impl AssetRequest {
    /// The request as a mathematical value.
    pub open spec fn view(&self) -> RequestView {
        match self {
            AssetRequest::BlockStates(name) => RequestView::BlockStates(name@),
            AssetRequest::Model(name) => RequestView::Model(name@),
        }
    }
}

/// The model that the chain of parents of `name` misses, if it misses one.
pub open spec fn missing_in_chain(pack: AssetPack, name: Seq<char>) -> Option<Seq<char>> {
    match parent_chain(pack.models(), name, pack.models().len()) {
        Err(f) => if f.kind == ErrorKind::NotFound {
            Some(f.subject)
        } else {
            None
        },
        Ok(_) => None,
    }
}

/// The first model that the chains of the references from `from` on miss.
pub open spec fn missing_in_models(pack: AssetPack, refs: Seq<ModelProperties>, from: int)
    -> Option<Seq<char>>
    decreases refs.len() - from,
{
    if from < 0 || from >= refs.len() {
        None
    } else {
        match missing_in_chain(pack, refs[from].model@) {
            Some(m) => Some(m),
            None => missing_in_models(pack, refs, from + 1),
        }
    }
}

/// What the resolution of `block` misses first: the description of its
/// block, or else a model in the chains of the models that its cases
/// select. A block-state that fails for another reason misses nothing.
pub open spec fn missing_for_block(pack: AssetPack, block: Seq<char>) -> Option<RequestView> {
    match pack.blockstates_of(key_name(block)) {
        Err(_) => Some(RequestView::BlockStates(key_name(block))),
        Ok(_) => match block_model_spec(pack, block) {
            Err(_) => None,
            Ok((refs, _)) => match missing_in_models(pack, refs, 0) {
                Some(m) => Some(RequestView::Model(m)),
                None => None,
            },
        },
    }
}

/// What the resolution of the block-states from `from` on misses first.
pub open spec fn first_missing(pack: AssetPack, blocks: Seq<Seq<char>>, from: int) -> Option<
    RequestView,
>
    decreases blocks.len() - from,
{
    if from < 0 || from >= blocks.len() {
        None
    } else {
        match missing_for_block(pack, blocks[from]) {
            Some(r) => Some(r),
            None => first_missing(pack, blocks, from + 1),
        }
    }
}

/// Where nothing is missed for a block-state, the description of its block
/// is in the pack, and so is every model in the chains of the models that
/// its cases select.
pub proof fn lemma_nothing_missing(pack: AssetPack, block: Seq<char>, i: int)
    requires
        missing_for_block(pack, block) is None,
        block_model_spec(pack, block) matches Ok(found) && 0 <= i < found.0.len(),
    ensures
        pack.blockstates_of(key_name(block)) is Ok,
        block_model_spec(pack, block) matches Ok(found) && missing_in_chain(
            pack,
            found.0[i].model@,
        ) is None,
{
    let refs = block_model_spec(pack, block)->Ok_0.0;
    lemma_none_missing_from(pack, refs, 0, i);
}

/// Where no model is missed from `from` on, none is missed at `at`.
proof fn lemma_none_missing_from(pack: AssetPack, refs: Seq<ModelProperties>, from: int, at: int)
    requires
        0 <= from <= at < refs.len(),
        missing_in_models(pack, refs, from) is None,
    ensures
        missing_in_chain(pack, refs[at].model@) is None,
    decreases at - from,
{
    if from < at {
        lemma_none_missing_from(pack, refs, from + 1, at);
    }
}

/// A name that is added to a list is found in it afterwards: what was asked
/// for and added is not asked for again.
pub proof fn lemma_added_is_found(names: Seq<Seq<char>>, name: Seq<char>)
    ensures
        name_index(names.push(name), name, 0) < names.push(name).len(),
{
    lemma_found_before(names.push(name), name, 0, names.len() as int);
}

/// The distinct strings among the first `n` of `cells`, in first-seen
/// order.
pub open spec fn distinct_upto(cells: Seq<Seq<char>>, n: nat) -> Seq<Seq<char>>
    decreases n,
{
    if n == 0 {
        Seq::empty()
    } else {
        with_name(distinct_upto(cells, (n - 1) as nat), cells[n - 1])
    }
}

/// The strings of a list as sequences of characters.
pub open spec fn texts(list: Seq<String>) -> Seq<Seq<char>> {
    Seq::new(list.len(), |i: int| list[i]@)
}

/// The distinct block-state strings of the grid, in first-seen order.
pub fn distinct_blocks(blocks: &Blocks) -> (r: Vec<String>)
    ensures
        texts(r@) == distinct_upto(blocks@, blocks@.len()),
{
    let mut seen: Vec<String> = Vec::new();
    let n = blocks.len();
    let mut i: usize = 0;
    assert(texts(seen@) =~= distinct_upto(blocks@, 0));
    while i < n
        invariant
            n == blocks@.len(),
            0 <= i <= n,
            texts(seen@) == distinct_upto(blocks@, i as nat),
        decreases n - i,
    {
        let block = blocks.block_at_index(i);
        let ghost before = texts(seen@);
        let mut k: usize = 0;
        let mut known = false;
        proof {
            lemma_name_index(before, block@, 0);
        }
        while k < seen.len() && !known
            invariant
                0 <= k <= seen@.len(),
                before == texts(seen@),
                !known ==> name_index(before, block@, 0) == name_index(before, block@, k as int),
                known ==> name_index(before, block@, 0) < before.len(),
            decreases seen@.len() - k + if known { 0int } else { 1int },
        {
            if same_text(seen[k].as_str(), block) {
                known = true;
            } else {
                k += 1;
            }
        }
        if !known {
            seen.push(block.to_owned());
            assert(texts(seen@) =~= before.push(block@));
        }
        i += 1;
    }
    seen
}

/// The model that the chain of parents of `name` misses, if it misses one.
fn chain_misses(asset_pack: &AssetPack, name: &str) -> (r: Option<String>)
    ensures
        match r {
            Some(m) => missing_in_chain(*asset_pack, name@) == Some(m@),
            None => missing_in_chain(*asset_pack, name@) is None,
        },
{
    match asset_pack.load_block_model_recursive(name) {
        Ok(_) => None,
        Err(e) => match e.kind {
            ErrorKind::NotFound => Some(e.subject),
            _ => None,
        },
    }
}

/// What the resolution of `block` misses first.
fn block_misses(asset_pack: &AssetPack, block: &str) -> (r: Option<AssetRequest>)
    ensures
        match r {
            Some(request) => missing_for_block(*asset_pack, block@) == Some(request@),
            None => missing_for_block(*asset_pack, block@) is None,
        },
{
    let (name, _) = split_block_state(block);
    if asset_pack.load_blockstates(name.as_str()).is_err() {
        return Some(AssetRequest::BlockStates(name));
    }
    let refs = match get_block_model(asset_pack, block) {
        Ok((refs, _)) => refs,
        Err(_) => {
            return None;
        },
    };
    let mut i: usize = 0;
    while i < refs.len()
        invariant
            0 <= i <= refs@.len(),
            asset_pack.blockstates_of(key_name(block@)) is Ok,
            block_model_spec(*asset_pack, block@) matches Ok(found) && found.0 == refs@,
            missing_in_models(*asset_pack, refs@, 0) == missing_in_models(
                *asset_pack,
                refs@,
                i as int,
            ),
        decreases refs@.len() - i,
    {
        match chain_misses(asset_pack, refs[i].model.as_str()) {
            Some(m) => {
                return Some(AssetRequest::Model(m));
            },
            None => {},
        }
        i += 1;
    }
    None
}

/// What the resolution of `blocks` misses first in `asset_pack`, or nothing
/// if every description and every model that it looks up is there.
pub fn next_missing(asset_pack: &AssetPack, blocks: &Vec<String>) -> (r: Option<AssetRequest>)
    ensures
        match r {
            Some(request) => first_missing(*asset_pack, texts(blocks@), 0) == Some(request@),
            None => first_missing(*asset_pack, texts(blocks@), 0) is None,
        },
{
    let mut i: usize = 0;
    while i < blocks.len()
        invariant
            0 <= i <= blocks@.len(),
            first_missing(*asset_pack, texts(blocks@), 0) == first_missing(
                *asset_pack,
                texts(blocks@),
                i as int,
            ),
        decreases blocks@.len() - i,
    {
        match block_misses(asset_pack, blocks[i].as_str()) {
            Some(request) => {
                return Some(request);
            },
            None => {},
        }
        i += 1;
    }
    None
}

} // verus!
