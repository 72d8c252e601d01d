//! Animation metadata: the sidecar files that stand beside some textures.
//!
//! Animations are not played. A sidecar is recognised by its extension, it
//! names the texture it belongs to, and it is never packed into the atlas.

use vstd::prelude::*;
use crate::text::{ends_with, has_suffix, slice};

verus! {

/// One frame of an animation: a frame number, alone or with its own
/// duration.
#[derive(Clone, Debug, PartialEq, Eq)]
pub enum TextureAnimationFrameInfo {
    Index(u32),
    WithDelay { index: u32, time: u32 },
}

/// The animation of a texture.
#[derive(Clone, Debug, PartialEq, Eq)]
pub struct TextureAnimationInfo {
    pub interpolate: bool,
    pub width: u32,
    pub height: u32,
    pub frametime: u32,
    pub frames: Vec<TextureAnimationFrameInfo>,
}

/// What a sidecar file holds.
#[derive(Clone, Debug, PartialEq, Eq)]
pub struct McMetaAssetContents {
    pub animation: TextureAnimationInfo,
}

/// A loaded sidecar: its contents and the path of its texture.
#[derive(Clone, Debug, PartialEq, Eq)]
pub struct McMetaAsset {
    pub contents: McMetaAssetContents,
    pub texture: String,
}

/// Loads sidecar files.
#[derive(Default)]
pub struct McMetaAssetLoader;

impl Default for TextureAnimationInfo {
    /// No interpolation, zero sizes and times, no frames.
    fn default() -> (r: Self)
        ensures
            !r.interpolate,
            r.width == 0,
            r.height == 0,
            r.frametime == 0,
            r.frames@.len() == 0,
    {
        TextureAnimationInfo {
            interpolate: false,
            width: 0,
            height: 0,
            frametime: 0,
            frames: Vec::new(),
        }
    }
}

impl Default for McMetaAssetContents {
    /// The default animation.
    fn default() -> (r: Self)
        ensures
            !r.animation.interpolate,
            r.animation.width == 0,
            r.animation.height == 0,
            r.animation.frametime == 0,
            r.animation.frames@.len() == 0,
    {
        McMetaAssetContents { animation: TextureAnimationInfo::default() }
    }
}

/// Whether `path` names a sidecar.
pub open spec fn is_sidecar(path: Seq<char>) -> bool {
    has_suffix(path, ".mcmeta"@)
}

/// The path of the texture that the sidecar `path` belongs to: the path
/// without the sidecar's extension.
pub open spec fn sidecar_texture(path: Seq<char>) -> Seq<char> {
    if is_sidecar(path) {
        path.take(path.len() - ".mcmeta"@.len())
    } else {
        path
    }
}

/// Of the first `n` of `paths`, those that are packed into the atlas: all
/// but the sidecars, in order.
pub open spec fn packed_paths(paths: Seq<Seq<char>>, n: nat) -> Seq<Seq<char>>
    decreases n,
{
    if n == 0 {
        Seq::empty()
    } else {
        let before = packed_paths(paths, (n - 1) as nat);
        if is_sidecar(paths[n - 1]) {
            before
        } else {
            before.push(paths[n - 1])
        }
    }
}

impl McMetaAssetLoader {
    /// The extension of the files that this loader loads.
    pub fn extension(&self) -> (r: &'static str)
        ensures
            r@ == "mcmeta"@,
    {
        "mcmeta"
    }

    /// Whether `path` names a file that this loader loads.
    pub fn accepts(&self, path: &str) -> (b: bool)
        ensures
            b == is_sidecar(path@),
    {
        ends_with(path, ".mcmeta")
    }

    /// The path of the texture that the sidecar `path` belongs to.
    pub fn texture_path(&self, path: &str) -> (r: String)
        ensures
            r@ == sidecar_texture(path@),
    {
        if ends_with(path, ".mcmeta") {
            let n = path.unicode_len();
            let p = ".mcmeta".unicode_len();
            let r = slice(path, 0, n - p);
            assert(r@ =~= path@.take(n - p));
            r
        } else {
            path.to_owned()
        }
    }

    /// Makes the asset of the sidecar at `path` from its parsed contents.
    pub fn load(&self, path: &str, contents: McMetaAssetContents) -> (r: McMetaAsset)
        ensures
            r.contents == contents,
            r.texture@ == sidecar_texture(path@),
    {
        McMetaAsset { contents, texture: self.texture_path(path) }
    }
}

/// The paths that are packed into the atlas: all of `paths` but the
/// sidecars, in order. The texture that a sidecar belongs to is packed like
/// any other.
pub fn textures_to_pack(paths: &Vec<String>) -> (r: Vec<String>)
    ensures
        Seq::new(r@.len(), |i: int| r@[i]@) == packed_paths(
            Seq::new(paths@.len(), |i: int| paths@[i]@),
            paths@.len(),
        ),
{
    let loader = McMetaAssetLoader;
    let mut packed: Vec<String> = Vec::new();
    let ghost all = Seq::new(paths@.len(), |i: int| paths@[i]@);
    let mut i: usize = 0;
    assert(Seq::new(packed@.len(), |k: int| packed@[k]@) =~= packed_paths(all, 0));
    while i < paths.len()
        invariant
            0 <= i <= paths@.len(),
            all == Seq::new(paths@.len(), |k: int| paths@[k]@),
            Seq::new(packed@.len(), |k: int| packed@[k]@) == packed_paths(all, i as nat),
        decreases paths@.len() - i,
    {
        let ghost before = Seq::new(packed@.len(), |k: int| packed@[k]@);
        if !loader.accepts(paths[i].as_str()) {
            packed.push(paths[i].clone());
            assert(Seq::new(packed@.len(), |k: int| packed@[k]@) =~= before.push(all[i as int]));
        }
        i += 1;
    }
    packed
}

} // verus!
