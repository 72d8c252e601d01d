//! The texture atlas: packed tiles, their transparency, and lookup by name.
//!
//! Packing itself is done elsewhere; this module takes the packed layout and
//! the atlas pixels, classifies each tile, and answers lookups.

use vstd::prelude::*;
use crate::error::{ErrorKind, Failure, ResolveError};
use crate::text::{
    has_prefix, lemma_name_index, name_index, same_text, slice, starts_with,
};

verus! {

/// Largest atlas width or height, in pixels.
pub const ATLAS_LIMIT: u32 = 0x100_0000;

/// Largest magnitude of a texture coordinate that `get_atlas_uvs` accepts.
pub const UV_LIMIT: i64 = 0x10_0000_0000;

/// A rectangle of pixels: `min` inclusive, `max` exclusive.
#[derive(Clone, Copy, PartialEq, Eq, Debug, Structural)]
pub struct PixelRect {
    pub min_x: u32,
    pub min_y: u32,
    pub max_x: u32,
    pub max_y: u32,
}

/// One packed texture.
#[derive(Clone, Debug, PartialEq, Eq)]
pub struct AtlasTile {
    pub name: String,
    pub rect: PixelRect,
    pub has_transparency: bool,
}

/// A tile as contracts speak of it.
pub struct TileView {
    pub name: Seq<char>,
    pub rect: PixelRect,
    pub has_transparency: bool,
}

/// The packed atlas. Tiles never change once it is built.
#[derive(Debug, PartialEq, Eq)]
pub struct TextureAtlas {
    width: u32,
    height: u32,
    tiles: Vec<AtlasTile>,
}

/// What a lookup returns: the tile's rectangle, the atlas size that
/// normalises it, and the tile's transparency.
#[derive(Clone, Copy, PartialEq, Eq, Debug, Structural)]
pub struct TextureDetails {
    pub rect: PixelRect,
    pub atlas_width: u32,
    pub atlas_height: u32,
    pub has_transparency: bool,
}

/// A texture coordinate pair in atlas pixels scaled by `UV_ONE`: dividing
/// `u` by `UV_ONE` times the atlas width gives the normalised coordinate.
#[derive(Clone, Copy, PartialEq, Eq, Debug, Structural)]
pub struct AtlasUv {
    pub u: i64,
    pub v: i64,
}

/// Whether `rect` is well-formed and lies inside a `width` by `height` image.
pub open spec fn rect_fits(rect: PixelRect, width: int, height: int) -> bool {
    rect.min_x <= rect.max_x <= width && rect.min_y <= rect.max_y <= height
}

/// Alpha of the pixel at `(x, y)` of an RGBA image `width` pixels wide.
pub open spec fn alpha_at(pixels: Seq<u8>, width: int, x: int, y: int) -> u8 {
    pixels[(y * width + x) * 4 + 3]
}

/// An alpha value that is neither fully transparent nor fully opaque.
pub open spec fn is_partial_alpha(a: u8) -> bool {
    a != 0 && a != 255
}

/// Whether some pixel of `rect` has partial alpha.
pub open spec fn rect_has_partial_alpha(pixels: Seq<u8>, width: int, rect: PixelRect) -> bool {
    exists|x: int, y: int|
        rect.min_x <= x < rect.max_x && rect.min_y <= y < rect.max_y && is_partial_alpha(
            #[trigger] alpha_at(pixels, width, x, y),
        )
}

/// Whether a layout can be made into an atlas: one name per rectangle, the
/// image within `ATLAS_LIMIT`, four bytes per pixel, every rectangle inside.
pub open spec fn layout_valid(
    names: int,
    rects: Seq<PixelRect>,
    width: int,
    height: int,
    pixels: Seq<u8>,
) -> bool {
    &&& names == rects.len()
    &&& width <= ATLAS_LIMIT
    &&& height <= ATLAS_LIMIT
    &&& pixels.len() == width * height * 4
    &&& forall|i: int| 0 <= i < rects.len() ==> rect_fits(#[trigger] rects[i], width, height)
}

/// `s` without every leading repetition of `prefix`.
pub open spec fn strip_all(s: Seq<char>, prefix: Seq<char>) -> Seq<char>
    decreases s.len(),
{
    if prefix.len() > 0 && has_prefix(s, prefix) {
        strip_all(s.skip(prefix.len() as int), prefix)
    } else {
        s
    }
}

/// The name under which the texture `name` is packed.
pub open spec fn texture_path(name: Seq<char>) -> Seq<char> {
    "minecraft/textures/block/"@ + strip_all(strip_all(name, "minecraft:"@), "block/"@) + ".png"@
}

/// The names of the tiles, in order.
pub open spec fn tile_names(tiles: Seq<TileView>) -> Seq<Seq<char>> {
    Seq::new(tiles.len(), |i: int| tiles[i].name)
}

/// `min + (max - min) * t`, with `t` a fraction scaled by `UV_ONE`; the
/// result is a pixel position scaled by `UV_ONE`.
pub open spec fn lerp_pixels(min: int, max: int, t: int) -> int {
    min * 65536 + (max - min) * t
}

/// A tile with a pixel whose alpha lies from 1 to 254 has partial alpha.
pub proof fn lemma_partial_pixel_flags_tile(
    pixels: Seq<u8>,
    width: int,
    rect: PixelRect,
    x: int,
    y: int,
)
    requires
        rect.min_x <= x < rect.max_x,
        rect.min_y <= y < rect.max_y,
        1 <= alpha_at(pixels, width, x, y) <= 254,
    ensures
        rect_has_partial_alpha(pixels, width, rect),
{
    assert(is_partial_alpha(alpha_at(pixels, width, x, y)));
}

/// A tile whose pixels are all fully opaque or fully transparent has no
/// partial alpha.
pub proof fn lemma_plain_tile_not_flagged(pixels: Seq<u8>, width: int, rect: PixelRect)
    requires
        forall|x: int, y: int|
            rect.min_x <= x < rect.max_x && rect.min_y <= y < rect.max_y ==> {
                let a = #[trigger] alpha_at(pixels, width, x, y);
                a == 255 || a == 0
            },
    ensures
        !rect_has_partial_alpha(pixels, width, rect),
{
}

/// The pixel index of `(x, y)` stays inside the image.
proof fn lemma_pixel_index(x: int, y: int, width: int, height: int)
    requires
        0 <= x < width,
        0 <= y < height,
    ensures
        0 <= y * width + x < width * height,
        (y * width + x) * 4 + 3 < width * height * 4,
        0 <= y * width <= width * height,
        width * height <= width * height * 4,
{
    assert(0 <= y * width && y * width + width <= width * height) by (nonlinear_arith)
        requires
            0 <= y < height,
            0 <= width,
    ;
}

/// Whether some pixel of `rect` has an alpha that is neither 0 nor 255.
pub fn tile_has_transparency(pixels: &Vec<u8>, width: u32, height: u32, rect: PixelRect) -> (b:
    bool)
    requires
        pixels@.len() == width * height * 4,
        rect_fits(rect, width as int, height as int),
    ensures
        b == rect_has_partial_alpha(pixels@, width as int, rect),
{
    let total = pixels.len();
    let mut x: u32 = rect.min_x;
    while x < rect.max_x
        invariant
            total == width * height * 4,
            pixels@.len() == width * height * 4,
            rect_fits(rect, width as int, height as int),
            rect.min_x <= x <= rect.max_x,
            forall|i: int, j: int|
                rect.min_x <= i < x && rect.min_y <= j < rect.max_y ==> !is_partial_alpha(
                    #[trigger] alpha_at(pixels@, width as int, i, j),
                ),
        decreases rect.max_x - x,
    {
        let mut y: u32 = rect.min_y;
        while y < rect.max_y
            invariant
                total == width * height * 4,
                pixels@.len() == width * height * 4,
                rect_fits(rect, width as int, height as int),
                rect.min_x <= x < rect.max_x,
                rect.min_y <= y <= rect.max_y,
                forall|i: int, j: int|
                    rect.min_x <= i < x && rect.min_y <= j < rect.max_y ==> !is_partial_alpha(
                        #[trigger] alpha_at(pixels@, width as int, i, j),
                    ),
                forall|j: int|
                    rect.min_y <= j < y ==> !is_partial_alpha(
                        #[trigger] alpha_at(pixels@, width as int, x as int, j),
                    ),
            decreases rect.max_y - y,
        {
            proof {
                lemma_pixel_index(x as int, y as int, width as int, height as int);
            }
            let row: usize = y as usize * width as usize;
            let at: usize = (row + x as usize) * 4 + 3;
            let alpha = pixels[at];
            if alpha != 255 && alpha != 0 {
                assert(is_partial_alpha(alpha_at(pixels@, width as int, x as int, y as int)));
                return true;
            }
            y += 1;
        }
        x += 1;
    }
    false
}

impl TextureDetails {
    /// The rectangle lies inside the atlas, which is within `ATLAS_LIMIT`.
    pub open spec fn wf(&self) -> bool {
        &&& rect_fits(self.rect, self.atlas_width as int, self.atlas_height as int)
        &&& self.atlas_width <= ATLAS_LIMIT
        &&& self.atlas_height <= ATLAS_LIMIT
    }

    /// Maps a texture coordinate, a fraction scaled by `UV_ONE` on each
    /// axis, linearly into the tile's rectangle.
    pub fn get_atlas_uvs(&self, uv_x: i64, uv_y: i64) -> (r: AtlasUv)
        requires
            self.wf(),
            -UV_LIMIT <= uv_x <= UV_LIMIT,
            -UV_LIMIT <= uv_y <= UV_LIMIT,
        ensures
            r.u == lerp_pixels(self.rect.min_x as int, self.rect.max_x as int, uv_x as int),
            r.v == lerp_pixels(self.rect.min_y as int, self.rect.max_y as int, uv_y as int),
    {
        let wx: i64 = self.rect.max_x as i64 - self.rect.min_x as i64;
        let wy: i64 = self.rect.max_y as i64 - self.rect.min_y as i64;
        assert(-(0x100_0000 * 0x10_0000_0000) <= wx * uv_x <= 0x100_0000 * 0x10_0000_0000)
            by (nonlinear_arith)
            requires
                0 <= wx <= 0x100_0000,
                -0x10_0000_0000 <= uv_x <= 0x10_0000_0000,
        ;
        assert(-(0x100_0000 * 0x10_0000_0000) <= wy * uv_y <= 0x100_0000 * 0x10_0000_0000)
            by (nonlinear_arith)
            requires
                0 <= wy <= 0x100_0000,
                -0x10_0000_0000 <= uv_y <= 0x10_0000_0000,
        ;
        AtlasUv {
            u: self.rect.min_x as i64 * 65536 + wx * uv_x,
            v: self.rect.min_y as i64 * 65536 + wy * uv_y,
        }
    }
}

/// `s` without every leading repetition of `prefix`.
pub fn strip_all_prefix(s: &str, prefix: &str) -> (r: String)
    ensures
        r@ == strip_all(s@, prefix@),
{
    let p = prefix.unicode_len();
    let mut cur = s.to_owned();
    if p == 0 {
        return cur;
    }
    let mut n = cur.as_str().unicode_len();
    while starts_with(cur.as_str(), prefix)
        invariant
            p == prefix@.len(),
            p > 0,
            n == cur@.len(),
            strip_all(s@, prefix@) == strip_all(cur@, prefix@),
        decreases n,
    {
        let rest = slice(cur.as_str(), p, n);
        assert(rest@ == cur@.skip(p as int));
        cur = rest;
        n = n - p;
    }
    cur
}

/// The name under which the texture `name` is packed.
pub fn texture_path_of(name: &str) -> (r: String)
    ensures
        r@ == texture_path(name@),
{
    let a = strip_all_prefix(name, "minecraft:");
    let b = strip_all_prefix(a.as_str(), "block/");
    let mut r = "minecraft/textures/block/".to_owned();
    r.append(b.as_str());
    r.append(".png");
    r
}

/// Whether `rect` lies inside a `width` by `height` image.
fn rect_fits_exec(rect: PixelRect, width: u32, height: u32) -> (b: bool)
    ensures
        b == rect_fits(rect, width as int, height as int),
{
    rect.min_x <= rect.max_x && rect.max_x <= width && rect.min_y <= rect.max_y && rect.max_y
        <= height
}

/// Whether every rectangle lies inside a `width` by `height` image.
fn all_rects_fit(rects: &Vec<PixelRect>, width: u32, height: u32) -> (b: bool)
    ensures
        b == forall|i: int| 0 <= i < rects@.len() ==> rect_fits(
            #[trigger] rects@[i],
            width as int,
            height as int,
        ),
{
    let mut i: usize = 0;
    while i < rects.len()
        invariant
            0 <= i <= rects@.len(),
            forall|j: int| 0 <= j < i ==> rect_fits(#[trigger] rects@[j], width as int, height as int),
        decreases rects@.len() - i,
    {
        if !rect_fits_exec(rects[i], width, height) {
            return false;
        }
        i += 1;
    }
    true
}

/// Builds the atlas from a packed layout and the atlas image in RGBA, four
/// bytes per pixel, row by row. A tile is flagged transparent exactly when
/// one of its pixels has an alpha that is neither 0 nor 255. A layout that
/// is not valid is refused.
pub fn create_texture_atlas(
    names: &Vec<String>,
    rects: &Vec<PixelRect>,
    width: u32,
    height: u32,
    pixels: &Vec<u8>,
) -> (r: Result<TextureAtlas, ResolveError>)
    ensures
        match r {
            Ok(atlas) => {
                &&& layout_valid(names@.len() as int, rects@, width as int, height as int, pixels@)
                &&& atlas.wf()
                &&& atlas.spec_width() == width
                &&& atlas.spec_height() == height
                &&& atlas@.len() == names@.len()
                &&& forall|i: int|
                    0 <= i < names@.len() ==> #[trigger] atlas@[i] == (TileView {
                        name: names@[i]@,
                        rect: rects@[i],
                        has_transparency: rect_has_partial_alpha(pixels@, width as int, rects@[i]),
                    })
            },
            Err(e) => {
                &&& !layout_valid(names@.len() as int, rects@, width as int, height as int, pixels@)
                &&& e@ == (Failure { kind: ErrorKind::Parse, subject: "texture atlas layout"@ })
            },
        },
{
    if names.len() != rects.len() || width > ATLAS_LIMIT || height > ATLAS_LIMIT {
        return Err(ResolveError::new(ErrorKind::Parse, "texture atlas layout"));
    }
    assert(width * height <= 0x100_0000 * 0x100_0000) by (nonlinear_arith)
        requires
            0 <= width <= 0x100_0000,
            0 <= height <= 0x100_0000,
    ;
    let bytes: u64 = width as u64 * height as u64 * 4;
    if pixels.len() as u64 != bytes || !all_rects_fit(rects, width, height) {
        return Err(ResolveError::new(ErrorKind::Parse, "texture atlas layout"));
    }
    let mut tiles: Vec<AtlasTile> = Vec::new();
    let mut i: usize = 0;
    while i < names.len()
        invariant
            0 <= i <= names@.len(),
            names@.len() == rects@.len(),
            layout_valid(names@.len() as int, rects@, width as int, height as int, pixels@),
            tiles@.len() == i,
            forall|j: int|
                0 <= j < i ==> {
                    &&& (#[trigger] tiles@[j]).name@ == names@[j]@
                    &&& tiles@[j].rect == rects@[j]
                    &&& tiles@[j].has_transparency == rect_has_partial_alpha(
                        pixels@,
                        width as int,
                        rects@[j],
                    )
                },
        decreases names@.len() - i,
    {
        let rect = rects[i];
        let flag = tile_has_transparency(pixels, width, height, rect);
        tiles.push(AtlasTile { name: names[i].clone(), rect, has_transparency: flag });
        i += 1;
    }
    let atlas = TextureAtlas { width, height, tiles };
    assert forall|k: int| 0 <= k < atlas@.len() implies rect_fits(
        (#[trigger] atlas@[k]).rect,
        width as int,
        height as int,
    ) by {
        assert(atlas@[k].rect == rects@[k]);
    }
    Ok(atlas)
}

impl TextureAtlas {
    /// Width of the atlas image in pixels.
    pub closed spec fn spec_width(&self) -> u32 {
        self.width
    }

    /// Height of the atlas image in pixels.
    pub closed spec fn spec_height(&self) -> u32 {
        self.height
    }

    /// The tiles, in the order in which they were given.
    pub closed spec fn view(&self) -> Seq<TileView> {
        Seq::new(
            self.tiles@.len(),
            |i: int|
                TileView {
                    name: self.tiles@[i].name@,
                    rect: self.tiles@[i].rect,
                    has_transparency: self.tiles@[i].has_transparency,
                },
        )
    }

    /// Every tile lies inside the image, which is within `ATLAS_LIMIT`.
    #[verifier::type_invariant]
    pub open spec fn wf(&self) -> bool {
        &&& self.spec_width() <= ATLAS_LIMIT
        &&& self.spec_height() <= ATLAS_LIMIT
        &&& forall|i: int|
            0 <= i < self@.len() ==> rect_fits(
                (#[trigger] self@[i]).rect,
                self.spec_width() as int,
                self.spec_height() as int,
            )
    }

    /// Width of the atlas image in pixels.
    #[verifier::when_used_as_spec(spec_width)]
    pub fn width(&self) -> (w: u32)
        ensures
            w == self.spec_width(),
    {
        self.width
    }

    /// Height of the atlas image in pixels.
    #[verifier::when_used_as_spec(spec_height)]
    pub fn height(&self) -> (h: u32)
        ensures
            h == self.spec_height(),
    {
        self.height
    }

    /// Number of tiles.
    pub fn len(&self) -> (n: usize)
        ensures
            n == self@.len(),
    {
        self.tiles.len()
    }

    /// What a lookup of the texture `name` gives: the first tile packed
    /// under the texture's path, or a `NotFound` failure naming that path.
    pub open spec fn lookup(&self, name: Seq<char>) -> Result<TextureDetails, Failure> {
        let path = texture_path(name);
        let i = name_index(tile_names(self@), path, 0);
        if 0 <= i < self@.len() {
            Ok(
                TextureDetails {
                    rect: self@[i].rect,
                    atlas_width: self.spec_width(),
                    atlas_height: self.spec_height(),
                    has_transparency: self@[i].has_transparency,
                },
            )
        } else {
            Err(Failure { kind: ErrorKind::NotFound, subject: path })
        }
    }

    /// In a well-formed atlas every lookup that succeeds gives well-formed
    /// details.
    pub proof fn lemma_lookup_wf(&self, name: Seq<char>)
        requires
            self.wf(),
        ensures
            self.lookup(name) matches Ok(d) ==> d.wf(),
    {
    }

    /// Rectangle and transparency of the texture `texture_name`, or a
    /// `NotFound` failure naming the packed path if no tile has it.
    pub fn get_tex_details(&self, texture_name: &str) -> (r: Result<TextureDetails, ResolveError>)
        ensures
            match r {
                Ok(d) => self.lookup(texture_name@) == Ok::<TextureDetails, Failure>(d),
                Err(e) => self.lookup(texture_name@) == Err::<TextureDetails, Failure>(e@),
            },
    {
        let path = texture_path_of(texture_name);
        let n = self.tiles.len();
        let mut i: usize = 0;
        let ghost names = tile_names(self@);
        proof {
            lemma_name_index(names, path@, 0);
        }
        while i < n
            invariant
                n == self.tiles@.len(),
                n == self@.len(),
                names == tile_names(self@),
                0 <= i <= n,
                path@ == texture_path(texture_name@),
                name_index(names, path@, 0) == name_index(names, path@, i as int),
            decreases n - i,
        {
            if same_text(self.tiles[i].name.as_str(), path.as_str()) {
                assert(self@[i as int].name == path@);
                return Ok(
                    TextureDetails {
                        rect: self.tiles[i].rect,
                        atlas_width: self.width,
                        atlas_height: self.height,
                        has_transparency: self.tiles[i].has_transparency,
                    },
                );
            }
            assert(self@[i as int].name != path@);
            i += 1;
        }
        Err(ResolveError::new(ErrorKind::NotFound, path.as_str()))
    }
}

} // verus!
