//! The mesh cache: one mesh set per palette index, built on first use.

use vstd::prelude::*;
use crate::atlas::TextureAtlas;
use crate::error::{ErrorKind, Failure, ResolveError};
use crate::mesh::{create_mesh_for_block, create_mesh_spec, mesh_views, ElementMesh, MeshView};
use crate::model::BlockModels;
use crate::palette::BlockPalette;
use crate::tint::Tint;

verus! {

/// The meshes of one block-state and its tint, if it has one.
#[derive(Clone, Debug, PartialEq, Eq)]
pub struct BlockMeshSet {
    pub meshes: Vec<ElementMesh>,
    pub tint: Option<Tint>,
}

/// The mesh sets built so far, by palette index.
#[derive(Clone, Debug, PartialEq, Eq)]
pub struct BlockResources {
    meshes: Vec<Option<BlockMeshSet>>,
}

impl BlockMeshSet {
    /// The set as a mathematical value.
    pub open spec fn view(&self) -> (Seq<MeshView>, Option<Tint>) {
        (mesh_views(self.meshes@), self.tint)
    }
}

/// What building the mesh set of palette index `idx` gives: the meshes of
/// the block-state that the palette holds there. An index that the palette
/// lacks is `NotFound`.
pub open spec fn build_spec(
    idx: int,
    palette: BlockPalette,
    atlas: TextureAtlas,
    block_models: BlockModels,
) -> Result<(Seq<MeshView>, Option<Tint>), Failure> {
    if 0 <= idx < palette@.len() {
        create_mesh_spec(palette@[idx], atlas, block_models)
    } else {
        Err(Failure { kind: ErrorKind::NotFound, subject: "palette index"@ })
    }
}

/// Whether `slot` holds the mesh set that `outcome` describes.
pub open spec fn built_as(
    slot: Option<BlockMeshSet>,
    outcome: Result<(Seq<MeshView>, Option<Tint>), Failure>,
) -> bool {
    slot matches Some(set) && outcome == Ok::<(Seq<MeshView>, Option<Tint>), Failure>(set@)
}

impl BlockResources {
    /// The slots of the cache, by palette index; a slot is empty until its
    /// mesh set is built.
    pub closed spec fn view(&self) -> Seq<Option<BlockMeshSet>> {
        self.meshes@
    }

    /// Whether the mesh set of `idx` is built.
    pub open spec fn has(&self, idx: int) -> bool {
        0 <= idx < self@.len() && self@[idx] is Some
    }

    /// A cache with nothing built.
    pub fn new() -> (r: Self)
        ensures
            forall|idx: int| !r.has(idx),
    {
        BlockResources { meshes: Vec::new() }
    }

    /// The mesh set of `idx`, if it is built.
    pub fn get(&self, idx: usize) -> (r: Option<&BlockMeshSet>)
        ensures
            match r {
                Some(set) => self.has(idx as int) && *set == self@[idx as int]->Some_0,
                None => !self.has(idx as int),
            },
    {
        if idx < self.meshes.len() {
            self.meshes[idx].as_ref()
        } else {
            None
        }
    }

    /// Builds the mesh set of palette index `idx` unless it is built
    /// already. A set that is built is never built again nor changed, and
    /// a failure leaves the cache as it was.
    pub fn get_or_build(
        &mut self,
        idx: usize,
        palette: &BlockPalette,
        atlas: &TextureAtlas,
        block_models: &BlockModels,
    ) -> (r: Result<(), ResolveError>)
        ensures
            forall|other: int|
                other != idx ==> final(self).has(other) == old(self).has(other),
            forall|other: int|
                other != idx && old(self).has(other) ==> final(self)@[other] == old(self)@[other],
            old(self).has(idx as int) ==> r is Ok && final(self).has(idx as int),
            old(self).has(idx as int) ==> final(self)@[idx as int] == old(self)@[idx as int],
            !old(self).has(idx as int) ==> match r {
                Ok(_) => final(self).has(idx as int) && built_as(
                    final(self)@[idx as int],
                    build_spec(idx as int, *palette, *atlas, *block_models),
                ),
                Err(e) => !final(self).has(idx as int) && build_spec(
                    idx as int,
                    *palette,
                    *atlas,
                    *block_models,
                ) == Err::<(Seq<MeshView>, Option<Tint>), Failure>(e@),
            },
    {
        if idx < self.meshes.len() && self.meshes[idx].is_some() {
            return Ok(());
        }
        if idx >= palette.len() {
            return Err(ResolveError::new(ErrorKind::NotFound, "palette index"));
        }
        let (meshes, tint) = match create_mesh_for_block(
            palette.name_at(idx),
            atlas,
            block_models,
        ) {
            Ok(built) => built,
            Err(e) => {
                return Err(e);
            },
        };
        while self.meshes.len() <= idx
            invariant
                old(self)@.len() <= self@.len(),
                forall|k: int| 0 <= k < old(self)@.len() ==> self@[k] == old(self)@[k],
                forall|k: int| old(self)@.len() <= k < self@.len() ==> self@[k] is None,
            decreases idx + 1 - self.meshes.len(),
        {
            self.meshes.push(None);
        }
        self.meshes.set(idx, Some(BlockMeshSet { meshes, tint }));
        Ok(())
    }
}

} // verus!
