//! Mesh generation: the quads of an element's faces, their texture
//! coordinates, and the placement of whole models.

use vstd::prelude::*;
use crate::atlas::{lerp_pixels, AtlasUv, TextureAtlas, TextureDetails};
use crate::error::{ErrorKind, Failure, ResolveError};
use crate::geometry::{
    lemma_rotate_about_range, rot_vert_with_orig, rotate_about, within, Axis, Point, Rotation,
    COORD_LIMIT,
};
use crate::model::{
    BlockFace, BlockModels, Element, ElementFace, ElementRotation, ProcessedModel, Textures,
    UvRect,
};
use crate::tint::Tint;
use crate::text::slice;

verus! {

/// How far the texture coordinates of a face are turned back, in steps of
/// 22.5 degrees: `x_steps` for the side faces, `y_steps` for top and bottom.
#[derive(Clone, Copy, PartialEq, Eq, Debug, Structural)]
pub struct UvLock {
    pub x_steps: u8,
    pub y_steps: u8,
}

/// One corner of a face: which end of the element it sits at on each axis,
/// and which corner of the texture it shows.
#[derive(Clone, Copy, PartialEq, Eq, Debug, Structural)]
pub struct Corner {
    pub x_to: bool,
    pub y_to: bool,
    pub z_to: bool,
    pub u: u8,
    pub v: u8,
}

/// The mesh of one element: four vertices and six indices per drawn face.
/// Positions are in ticks, normals are scaled by `TRIG_ONE`, and texture
/// coordinates are atlas pixels scaled by `UV_ONE`.
#[derive(Clone, Debug, PartialEq, Eq)]
pub struct ElementMesh {
    pub positions: Vec<Point>,
    pub normals: Vec<Point>,
    pub uvs: Vec<AtlasUv>,
    pub indices: Vec<u32>,
    pub has_transparency: bool,
    pub offset: Point,
}

/// An element mesh as contracts speak of it.
pub struct MeshView {
    pub positions: Seq<(int, int, int)>,
    pub normals: Seq<(int, int, int)>,
    pub uvs: Seq<(int, int)>,
    pub indices: Seq<int>,
    pub has_transparency: bool,
    pub offset: (int, int, int),
}

impl ElementMesh {
    /// The mesh as a mathematical value.
    pub open spec fn view(&self) -> MeshView {
        MeshView {
            positions: Seq::new(self.positions@.len(), |i: int| self.positions@[i]@),
            normals: Seq::new(self.normals@.len(), |i: int| self.normals@[i]@),
            uvs: Seq::new(
                self.uvs@.len(),
                |i: int| (self.uvs@[i].u as int, self.uvs@[i].v as int),
            ),
            indices: Seq::new(self.indices@.len(), |i: int| self.indices@[i] as int),
            has_transparency: self.has_transparency,
            offset: self.offset@,
        }
    }
}

/// The faces in the order in which they are drawn.
pub open spec fn face_order(i: int) -> BlockFace {
    if i == 0 {
        BlockFace::Up
    } else if i == 1 {
        BlockFace::Down
    } else if i == 2 {
        BlockFace::East
    } else if i == 3 {
        BlockFace::West
    } else if i == 4 {
        BlockFace::South
    } else {
        BlockFace::North
    }
}

/// Corner `k` of face `f`, in the face's winding order.
pub open spec fn corner(f: BlockFace, k: int) -> Corner {
    match f {
        BlockFace::Up => if k == 0 {
            Corner { x_to: true, y_to: true, z_to: false, u: 1, v: 0 }
        } else if k == 1 {
            Corner { x_to: false, y_to: true, z_to: false, u: 0, v: 0 }
        } else if k == 2 {
            Corner { x_to: false, y_to: true, z_to: true, u: 0, v: 1 }
        } else {
            Corner { x_to: true, y_to: true, z_to: true, u: 1, v: 1 }
        },
        BlockFace::Down => if k == 0 {
            Corner { x_to: true, y_to: false, z_to: true, u: 0, v: 0 }
        } else if k == 1 {
            Corner { x_to: false, y_to: false, z_to: true, u: 1, v: 0 }
        } else if k == 2 {
            Corner { x_to: false, y_to: false, z_to: false, u: 1, v: 1 }
        } else {
            Corner { x_to: true, y_to: false, z_to: false, u: 0, v: 1 }
        },
        BlockFace::East => if k == 0 {
            Corner { x_to: true, y_to: false, z_to: false, u: 1, v: 1 }
        } else if k == 1 {
            Corner { x_to: true, y_to: true, z_to: false, u: 1, v: 0 }
        } else if k == 2 {
            Corner { x_to: true, y_to: true, z_to: true, u: 0, v: 0 }
        } else {
            Corner { x_to: true, y_to: false, z_to: true, u: 0, v: 1 }
        },
        BlockFace::West => if k == 0 {
            Corner { x_to: false, y_to: false, z_to: true, u: 1, v: 1 }
        } else if k == 1 {
            Corner { x_to: false, y_to: true, z_to: true, u: 1, v: 0 }
        } else if k == 2 {
            Corner { x_to: false, y_to: true, z_to: false, u: 0, v: 0 }
        } else {
            Corner { x_to: false, y_to: false, z_to: false, u: 0, v: 1 }
        },
        BlockFace::South => if k == 0 {
            Corner { x_to: false, y_to: false, z_to: true, u: 0, v: 1 }
        } else if k == 1 {
            Corner { x_to: true, y_to: false, z_to: true, u: 1, v: 1 }
        } else if k == 2 {
            Corner { x_to: true, y_to: true, z_to: true, u: 1, v: 0 }
        } else {
            Corner { x_to: false, y_to: true, z_to: true, u: 0, v: 0 }
        },
        BlockFace::North => if k == 0 {
            Corner { x_to: false, y_to: true, z_to: false, u: 0, v: 0 }
        } else if k == 1 {
            Corner { x_to: true, y_to: true, z_to: false, u: 1, v: 0 }
        } else if k == 2 {
            Corner { x_to: true, y_to: false, z_to: false, u: 1, v: 1 }
        } else {
            Corner { x_to: false, y_to: false, z_to: false, u: 0, v: 1 }
        },
    }
}

/// The outward normal of face `f`, scaled by `TRIG_ONE`.
pub open spec fn normal(f: BlockFace) -> (int, int, int) {
    match f {
        BlockFace::Up => (0, 16384, 0),
        BlockFace::Down => (0, -16384, 0),
        BlockFace::East => (16384, 0, 0),
        BlockFace::West => (-16384, 0, 0),
        BlockFace::South => (0, 0, 16384),
        BlockFace::North => (0, 0, -16384),
    }
}

/// Whether the normal of face `f` is vertical.
pub open spec fn is_vertical(f: BlockFace) -> bool {
    f == BlockFace::Up || f == BlockFace::Down
}

/// The steps by which the texture coordinates of face `f` are turned:
/// faces with a vertical normal take `y_steps`, the others `x_steps`.
pub open spec fn uv_steps(f: BlockFace, uv_rot: UvLock) -> u8 {
    if is_vertical(f) {
        uv_rot.y_steps
    } else {
        uv_rot.x_steps
    }
}

/// The position of corner `c` of the element `e`.
pub open spec fn corner_position(e: Element, c: Corner) -> (int, int, int) {
    (
        if c.x_to {
            e.to.x as int
        } else {
            e.from.x as int
        },
        if c.y_to {
            e.to.y as int
        } else {
            e.from.y as int
        },
        if c.z_to {
            e.to.z as int
        } else {
            e.from.z as int
        },
    )
}

/// The texture coordinate of corner `c` before any turn: the corner of the
/// whole texture, or, where the face declares a rectangle, the linear
/// interpolation between the rectangle's ends at that corner.
pub open spec fn corner_base_uv(uv: Option<UvRect>, c: Corner) -> (int, int) {
    match uv {
        Some(r) => (r.x1 + (r.x2 - r.x1) * c.u, r.y1 + (r.y2 - r.y1) * c.v),
        None => (c.u * 65536, c.v * 65536),
    }
}

/// The texture coordinate `uv` turned by `steps` about `orig`.
pub open spec fn rotate_uv_about(steps: u8, orig: (int, int), uv: (int, int)) -> (int, int) {
    let r = rotate_about(Rotation { axis: Axis::Y, steps }, (orig.0, 0, orig.1), (uv.0, 0, uv.1));
    (r.0, r.2)
}

/// A texture coordinate turned by `steps` about the texture's centre.
pub open spec fn rotate_uv(steps: u8, uv: (int, int)) -> (int, int) {
    rotate_uv_about(steps, (32768, 32768), uv)
}

/// The atlas coordinate of corner `c` of a face that shows the tile `d`.
pub open spec fn corner_uv(uv: Option<UvRect>, c: Corner, steps: u8, d: TextureDetails) -> (
    int,
    int,
) {
    let t = rotate_uv(steps, corner_base_uv(uv, c));
    (
        lerp_pixels(d.rect.min_x as int, d.rect.max_x as int, t.0),
        lerp_pixels(d.rect.min_y as int, d.rect.max_y as int, t.1),
    )
}

/// The literal texture of a face: the value that `textures` holds for the
/// variable that the face names with a leading `#`, if it holds one.
pub open spec fn resolved_texture(texture: Seq<char>, textures: Map<Seq<char>, Seq<char>>)
    -> Option<Seq<char>> {
    if texture.len() > 0 && texture[0] == '#' && textures.contains_key(texture.skip(1)) {
        Some(textures[texture.skip(1)])
    } else {
        None
    }
}

/// The midpoint of the element's bounds, rounded down to a tick.
pub open spec fn midpoint(e: Element) -> (int, int, int) {
    (
        e.from.x + (e.to.x - e.from.x) / 2,
        e.from.y + (e.to.y - e.from.y) / 2,
        e.from.z + (e.to.z - e.from.z) / 2,
    )
}

/// Whether `m` can come straight from an element: positions and offset fit
/// in 32 bits, and normals are no longer than one.
pub open spec fn is_raw(m: MeshView) -> bool {
    &&& within(m.offset, 0x8000_0000)
    &&& forall|i: int| 0 <= i < m.positions.len() ==> within(#[trigger] m.positions[i], 0x8000_0000)
    &&& forall|i: int| 0 <= i < m.normals.len() ==> within(#[trigger] m.normals[i], 16384)
}

/// The mesh with no face, for the element `e`.
pub open spec fn empty_mesh(e: Element) -> MeshView {
    MeshView {
        positions: Seq::empty(),
        normals: Seq::empty(),
        uvs: Seq::empty(),
        indices: Seq::empty(),
        has_transparency: false,
        offset: midpoint(e),
    }
}

/// The mesh `m` with the quad of face `f` appended: four vertices in the
/// face's winding order, the face's normal four times, and the two
/// triangles 0, 1, 2 and 2, 3, 0 over the new vertices.
pub open spec fn append_face(
    m: MeshView,
    e: Element,
    f: BlockFace,
    uv: Option<UvRect>,
    d: TextureDetails,
    uv_rot: UvLock,
) -> MeshView {
    let base = m.positions.len() as int;
    MeshView {
        positions: m.positions + Seq::new(4, |k: int| corner_position(e, corner(f, k))),
        normals: m.normals + Seq::new(4, |k: int| normal(f)),
        uvs: m.uvs + Seq::new(4, |k: int| corner_uv(uv, corner(f, k), uv_steps(f, uv_rot), d)),
        indices: m.indices + seq![base, base + 1, base + 2, base + 2, base + 3, base],
        has_transparency: m.has_transparency || d.has_transparency,
        offset: m.offset,
    }
}

/// The mesh of the first `n` faces of `e` in drawing order. A face is drawn
/// if the element has it and its texture variable resolves; a face whose
/// variable does not resolve is skipped. A texture that the atlas lacks
/// fails the whole mesh.
pub open spec fn faces_mesh(
    e: Element,
    atlas: TextureAtlas,
    textures: Map<Seq<char>, Seq<char>>,
    uv_rot: UvLock,
    n: nat,
) -> Result<MeshView, Failure>
    decreases n,
{
    if n == 0 {
        Ok(empty_mesh(e))
    } else {
        let f = face_order(n - 1);
        match faces_mesh(e, atlas, textures, uv_rot, (n - 1) as nat) {
            Err(err) => Err(err),
            Ok(m) => match e.faces.face(f) {
                None => Ok(m),
                Some(face) => match resolved_texture(face.texture@, textures) {
                    None => Ok(m),
                    Some(name) => match atlas.lookup(name) {
                        Err(err) => Err(err),
                        Ok(d) => Ok(append_face(m, e, f, face.uv, d, uv_rot)),
                    },
                },
            },
        }
    }
}

/// The mesh of the element `e` before any rotation.
pub open spec fn element_mesh_spec(
    e: Element,
    atlas: TextureAtlas,
    textures: Map<Seq<char>, Seq<char>>,
    uv_rot: UvLock,
) -> Result<MeshView, Failure> {
    faces_mesh(e, atlas, textures, uv_rot, 6)
}

/// The steps of a turn by `turns` quarter turns in the negative sense.
pub open spec fn turn_steps(turns: u8) -> u8 {
    ((16 - 4 * (turns % 4)) % 16) as u8
}

/// The centre of a block.
pub open spec fn block_centre() -> (int, int, int) {
    (32768, 32768, 32768)
}

/// The point `p` after the element's own rotation about its origin, then
/// the model's turn about the X axis and then about the Y axis, both about
/// the block's centre.
pub open spec fn place_point(p: (int, int, int), rot: ElementRotation, x_turns: u8, y_turns: u8)
    -> (int, int, int) {
    let a = rotate_about(Rotation { axis: rot.axis, steps: rot.steps }, rot.origin.as_point()@, p);
    let b = rotate_about(Rotation { axis: Axis::X, steps: turn_steps(x_turns) }, block_centre(), a);
    rotate_about(Rotation { axis: Axis::Y, steps: turn_steps(y_turns) }, block_centre(), b)
}

/// The direction `n` after the same three rotations.
pub open spec fn place_normal(n: (int, int, int), rot: ElementRotation, x_turns: u8, y_turns: u8)
    -> (int, int, int) {
    let a = rotate_about(Rotation { axis: rot.axis, steps: rot.steps }, (0, 0, 0), n);
    let b = rotate_about(Rotation { axis: Axis::X, steps: turn_steps(x_turns) }, (0, 0, 0), a);
    rotate_about(Rotation { axis: Axis::Y, steps: turn_steps(y_turns) }, (0, 0, 0), b)
}

/// The mesh `m` placed: every position is rotated and then taken relative
/// to the rotated midpoint, which becomes the offset; every normal is
/// rotated; texture coordinates and indices stay.
pub open spec fn placed_mesh(m: MeshView, rot: ElementRotation, x_turns: u8, y_turns: u8)
    -> MeshView {
    let off = place_point(m.offset, rot, x_turns, y_turns);
    MeshView {
        positions: Seq::new(
            m.positions.len(),
            |i: int|
                {
                    let p = place_point(m.positions[i], rot, x_turns, y_turns);
                    (p.0 - off.0, p.1 - off.1, p.2 - off.2)
                },
        ),
        normals: Seq::new(
            m.normals.len(),
            |i: int| place_normal(m.normals[i], rot, x_turns, y_turns),
        ),
        uvs: m.uvs,
        indices: m.indices,
        has_transparency: m.has_transparency,
        offset: off,
    }
}

/// How the texture coordinates of a model are turned back: by the model's
/// own turns if it locks them, else not at all.
pub open spec fn model_uv_lock(model: ProcessedModel) -> UvLock {
    if model.uv_lock {
        UvLock { x_steps: turn_steps(model.x_turns), y_steps: turn_steps(model.y_turns) }
    } else {
        UvLock { x_steps: 0, y_steps: 0 }
    }
}

/// The placed mesh of element `i` of `model`.
#[verifier::opaque]
pub open spec fn element_at(model: ProcessedModel, atlas: TextureAtlas, i: int) -> Result<
    MeshView,
    Failure,
> {
    let e = model.elements@[i];
    match element_mesh_spec(e, atlas, model.textures@, model_uv_lock(model)) {
        Ok(m) => Ok(placed_mesh(m, e.rotation, model.x_turns, model.y_turns)),
        Err(err) => Err(err),
    }
}

/// The placed meshes of the first `n` elements of `model`, in order.
pub open spec fn model_meshes(model: ProcessedModel, atlas: TextureAtlas, n: nat) -> Result<
    Seq<MeshView>,
    Failure,
>
    decreases n,
{
    if n == 0 {
        Ok(Seq::empty())
    } else {
        match model_meshes(model, atlas, (n - 1) as nat) {
            Err(err) => Err(err),
            Ok(s) => match element_at(model, atlas, n - 1) {
                Err(err) => Err(err),
                Ok(m) => Ok(s.push(m)),
            },
        }
    }
}

/// The placed meshes of the first `n` of `models`, one after the other.
pub open spec fn block_meshes(models: Seq<ProcessedModel>, atlas: TextureAtlas, n: nat) -> Result<
    Seq<MeshView>,
    Failure,
>
    decreases n,
{
    if n == 0 {
        Ok(Seq::empty())
    } else {
        match block_meshes(models, atlas, (n - 1) as nat) {
            Err(err) => Err(err),
            Ok(s) => match model_meshes(models[n - 1], atlas, models[n - 1].elements@.len()) {
                Err(err) => Err(err),
                Ok(t) => Ok(s + t),
            },
        }
    }
}

/// The meshes and the tint of the block-state `block`: one placed mesh per
/// element of each of its models, in order; `NotFound` if `block_models`
/// has no entry for it.
pub open spec fn create_mesh_spec(block: Seq<char>, atlas: TextureAtlas, block_models: BlockModels)
    -> Result<(Seq<MeshView>, Option<Tint>), Failure> {
    if !block_models.has(block) {
        Err(Failure { kind: ErrorKind::NotFound, subject: block })
    } else {
        let entry = block_models.entry(block);
        match block_meshes(entry.models@, atlas, entry.models@.len()) {
            Err(err) => Err(err),
            Ok(s) => Ok((s, entry.tint)),
        }
    }
}

/// The meshes of a list as mathematical values.
pub open spec fn mesh_views(meshes: Seq<ElementMesh>) -> Seq<MeshView> {
    Seq::new(meshes.len(), |i: int| meshes[i]@)
}

/// Face number `i` in drawing order.
pub fn face_in_order(i: usize) -> (f: BlockFace)
    ensures
        f == face_order(i as int),
{
    if i == 0 {
        BlockFace::Up
    } else if i == 1 {
        BlockFace::Down
    } else if i == 2 {
        BlockFace::East
    } else if i == 3 {
        BlockFace::West
    } else if i == 4 {
        BlockFace::South
    } else {
        BlockFace::North
    }
}

/// A corner from its five entries.
fn make_corner(x_to: bool, y_to: bool, z_to: bool, u: u8, v: u8) -> (c: Corner)
    ensures
        c == (Corner { x_to, y_to, z_to, u, v }),
{
    Corner { x_to, y_to, z_to, u, v }
}

/// Corner `k` of face `f`, in the face's winding order.
pub fn corner_of(f: BlockFace, k: usize) -> (c: Corner)
    ensures
        c == corner(f, k as int),
        c.u <= 1,
        c.v <= 1,
{
    match f {
        BlockFace::Up => if k == 0 {
            make_corner(true, true, false, 1, 0)
        } else if k == 1 {
            make_corner(false, true, false, 0, 0)
        } else if k == 2 {
            make_corner(false, true, true, 0, 1)
        } else {
            make_corner(true, true, true, 1, 1)
        },
        BlockFace::Down => if k == 0 {
            make_corner(true, false, true, 0, 0)
        } else if k == 1 {
            make_corner(false, false, true, 1, 0)
        } else if k == 2 {
            make_corner(false, false, false, 1, 1)
        } else {
            make_corner(true, false, false, 0, 1)
        },
        BlockFace::East => if k == 0 {
            make_corner(true, false, false, 1, 1)
        } else if k == 1 {
            make_corner(true, true, false, 1, 0)
        } else if k == 2 {
            make_corner(true, true, true, 0, 0)
        } else {
            make_corner(true, false, true, 0, 1)
        },
        BlockFace::West => if k == 0 {
            make_corner(false, false, true, 1, 1)
        } else if k == 1 {
            make_corner(false, true, true, 1, 0)
        } else if k == 2 {
            make_corner(false, true, false, 0, 0)
        } else {
            make_corner(false, false, false, 0, 1)
        },
        BlockFace::South => if k == 0 {
            make_corner(false, false, true, 0, 1)
        } else if k == 1 {
            make_corner(true, false, true, 1, 1)
        } else if k == 2 {
            make_corner(true, true, true, 1, 0)
        } else {
            make_corner(false, true, true, 0, 0)
        },
        BlockFace::North => if k == 0 {
            make_corner(false, true, false, 0, 0)
        } else if k == 1 {
            make_corner(true, true, false, 1, 0)
        } else if k == 2 {
            make_corner(true, false, false, 1, 1)
        } else {
            make_corner(false, false, false, 0, 1)
        },
    }
}

/// The outward normal of face `f`, scaled by `TRIG_ONE`.
pub fn normal_of(f: BlockFace) -> (n: Point)
    ensures
        n@ == normal(f),
{
    match f {
        BlockFace::Up => Point { x: 0, y: 16384, z: 0 },
        BlockFace::Down => Point { x: 0, y: -16384, z: 0 },
        BlockFace::East => Point { x: 16384, y: 0, z: 0 },
        BlockFace::West => Point { x: -16384, y: 0, z: 0 },
        BlockFace::South => Point { x: 0, y: 0, z: 16384 },
        BlockFace::North => Point { x: 0, y: 0, z: -16384 },
    }
}

/// Turns the texture coordinate `uv` by `steps` about `orig`.
pub fn rotate_uv_with_orig(steps: u8, orig: (i64, i64), uv: (i64, i64)) -> (r: (i64, i64))
    requires
        -COORD_LIMIT <= orig.0 <= COORD_LIMIT,
        -COORD_LIMIT <= orig.1 <= COORD_LIMIT,
        -COORD_LIMIT <= uv.0 <= COORD_LIMIT,
        -COORD_LIMIT <= uv.1 <= COORD_LIMIT,
    ensures
        (r.0 as int, r.1 as int) == rotate_uv_about(
            steps,
            (orig.0 as int, orig.1 as int),
            (uv.0 as int, uv.1 as int),
        ),
{
    let res = rot_vert_with_orig(
        Rotation { axis: Axis::Y, steps },
        Point { x: orig.0, y: 0, z: orig.1 },
        Point { x: uv.0, y: 0, z: uv.1 },
    );
    (res.x, res.z)
}

/// The literal texture of `face`: the value that `textures` holds for the
/// variable that the face names with a leading `#`, if it holds one.
pub fn resolve_face_texture<'a>(face: &ElementFace, textures: &'a Textures) -> (r: Option<
    &'a str,
>)
    ensures
        match r {
            Some(name) => resolved_texture(face.texture@, textures@) == Some(name@),
            None => resolved_texture(face.texture@, textures@) is None,
        },
{
    let texture = face.texture.as_str();
    let n = texture.unicode_len();
    if n > 0 && texture.get_char(0) == '#' {
        let variable = slice(texture, 1, n);
        assert(variable@ == face.texture@.skip(1));
        textures.get(variable.as_str())
    } else {
        None
    }
}

/// The coordinate of the element `e` on one axis at a corner.
fn pick(from: i32, to: i32, at_to: bool) -> (r: i64)
    ensures
        r == if at_to {
            to as int
        } else {
            from as int
        },
{
    if at_to {
        to as i64
    } else {
        from as i64
    }
}

/// `from + (to - from) / 2`, rounded down.
fn halfway(from: i32, to: i32) -> (r: i64)
    ensures
        r == from + (to - from) / 2,
{
    let d: i64 = to as i64 - from as i64;
    if d >= 0 {
        from as i64 + d / 2
    } else {
        from as i64 - (1 - d) / 2
    }
}

/// The texture coordinate of corner `c` before any turn.
fn base_uv(uv: &Option<UvRect>, c: Corner) -> (r: (i64, i64))
    requires
        c.u <= 1,
        c.v <= 1,
    ensures
        (r.0 as int, r.1 as int) == corner_base_uv(*uv, c),
        -0x8000_0000 <= r.0 <= 0x8000_0000,
        -0x8000_0000 <= r.1 <= 0x8000_0000,
{
    match uv {
        Some(rect) => {
            let u: i64 = if c.u == 0 {
                assert((rect.x2 - rect.x1) * 0 == 0);
                rect.x1 as i64
            } else {
                assert((rect.x2 - rect.x1) * 1 == rect.x2 - rect.x1);
                rect.x2 as i64
            };
            let v: i64 = if c.v == 0 {
                assert((rect.y2 - rect.y1) * 0 == 0);
                rect.y1 as i64
            } else {
                assert((rect.y2 - rect.y1) * 1 == rect.y2 - rect.y1);
                rect.y2 as i64
            };
            (u, v)
        },
        None => (c.u as i64 * 65536, c.v as i64 * 65536),
    }
}

impl ElementMesh {
    /// The four lists of vertices are equally long, and short enough for
    /// another face.
    pub open spec fn has_room(&self) -> bool {
        &&& self.positions@.len() == self.normals@.len()
        &&& self.positions@.len() == self.uvs@.len()
        &&& self.positions@.len() <= 0x1000_0000
    }

    /// A mesh without faces for the element `e`.
    pub fn empty(e: &Element) -> (m: Self)
        ensures
            m@ == empty_mesh(*e),
            m.has_room(),
            m.positions@.len() == 0,
            is_raw(m@),
    {
        let m = ElementMesh {
            positions: Vec::new(),
            normals: Vec::new(),
            uvs: Vec::new(),
            indices: Vec::new(),
            has_transparency: false,
            offset: Point {
                x: halfway(e.from.x, e.to.x),
                y: halfway(e.from.y, e.to.y),
                z: halfway(e.from.z, e.to.z),
            },
        };
        assert(m@.positions =~= Seq::empty());
        assert(m@.normals =~= Seq::empty());
        assert(m@.uvs =~= Seq::empty());
        assert(m@.indices =~= Seq::empty());
        m
    }

    /// Appends the quad of face `f` of the element `e`, which shows the
    /// tile `d`.
    pub fn append_face(
        &mut self,
        e: &Element,
        f: BlockFace,
        uv: &Option<UvRect>,
        d: &TextureDetails,
        uv_rot: UvLock,
    )
        requires
            old(self).has_room(),
            d.wf(),
        ensures
            is_raw(old(self)@) ==> is_raw(final(self)@),
            final(self)@ == append_face(old(self)@, *e, f, *uv, *d, uv_rot),
            final(self).positions@.len() == old(self).positions@.len() + 4,
            final(self).positions@.len() == final(self).normals@.len(),
            final(self).positions@.len() == final(self).uvs@.len(),
    {
        let base: u32 = self.positions.len() as u32;
        let steps = if f == BlockFace::Up || f == BlockFace::Down {
            uv_rot.y_steps
        } else {
            uv_rot.x_steps
        };
        let n = normal_of(f);
        self.indices.push(base);
        self.indices.push(base + 1);
        self.indices.push(base + 2);
        self.indices.push(base + 2);
        self.indices.push(base + 3);
        self.indices.push(base);
        if d.has_transparency {
            self.has_transparency = true;
        }
        assert(self@.indices =~= old(self)@.indices + seq![
            base as int,
            base + 1,
            base + 2,
            base + 2,
            base + 3,
            base as int,
        ]);
        let ghost start = old(self).positions@.len() as int;
        let mut k: usize = 0;
        while k < 4
            invariant
                0 <= k <= 4,
                d.wf(),
                n@ == normal(f),
                steps == uv_steps(f, uv_rot),
                self.positions@.len() == old(self).positions@.len() + k,
                self.normals@.len() == old(self).normals@.len() + k,
                self.uvs@.len() == old(self).uvs@.len() + k,
                start == old(self).positions@.len(),
                base == start,
                self@.indices == old(self)@.indices + seq![
                    base as int,
                    base + 1,
                    base + 2,
                    base + 2,
                    base + 3,
                    base as int,
                ],
                self.has_transparency == (old(self).has_transparency || d.has_transparency),
                self.offset == old(self).offset,
                old(self).has_room(),
                forall|j: int|
                    0 <= j < start ==> (#[trigger] self.positions@[j]) == old(self).positions@[j],
                forall|j: int|
                    0 <= j < start ==> (#[trigger] self.normals@[j]) == old(self).normals@[j],
                forall|j: int| 0 <= j < start ==> (#[trigger] self.uvs@[j]) == old(self).uvs@[j],
                forall|j: int|
                    start <= j < start + k ==> (#[trigger] self.positions@[j])@
                        == corner_position(*e, corner(f, j - start)),
                forall|j: int| start <= j < start + k ==> (#[trigger] self.normals@[j])@ == normal(f),
                forall|j: int|
                    start <= j < start + k ==> ((#[trigger] self.uvs@[j]).u as int, self.uvs@[j].v as int)
                        == corner_uv(*uv, corner(f, j - start), steps, *d),
            decreases 4 - k,
        {
            let c = corner_of(f, k);
            let position = Point {
                x: pick(e.from.x, e.to.x, c.x_to),
                y: pick(e.from.y, e.to.y, c.y_to),
                z: pick(e.from.z, e.to.z, c.z_to),
            };
            let b = base_uv(uv, c);
            proof {
                lemma_rotate_about_range(
                    Rotation { axis: Axis::Y, steps },
                    (32768, 0, 32768),
                    (b.0 as int, 0, b.1 as int),
                    0x8000_0000,
                );
            }
            let t = rotate_uv_with_orig(steps, (32768, 32768), b);
            let atlas_uv = d.get_atlas_uvs(t.0, t.1);
            self.positions.push(position);
            self.normals.push(n);
            self.uvs.push(atlas_uv);
            k += 1;
        }
        proof {
            let old_view = old(self)@;
            let want = append_face(old_view, *e, f, *uv, *d, uv_rot);
            assert(self@.positions =~= want.positions);
            assert(self@.normals =~= want.normals);
            assert(self@.uvs =~= want.uvs);
            assert(self@.indices =~= want.indices);
        }
    }
}

/// Builds the mesh of one element before any rotation: for each face that
/// the element has and whose texture variable resolves, in the order up,
/// down, east, west, south, north, one quad. The coordinates of a face are
/// turned back by `uv_rot` about the texture's centre.
pub fn element_mesh(e: &Element, atlas: &TextureAtlas, textures: &Textures, uv_rot: UvLock) -> (r:
    Result<ElementMesh, ResolveError>)
    ensures
        match r {
            Ok(m) => element_mesh_spec(*e, *atlas, textures@, uv_rot) == Ok::<MeshView, Failure>(
                m@,
            ) && is_raw(m@) && m.has_room(),
            Err(err) => element_mesh_spec(*e, *atlas, textures@, uv_rot) == Err::<
                MeshView,
                Failure,
            >(err@),
        },
{
    let mut mesh = ElementMesh::empty(e);
    let mut i: usize = 0;
    proof {
        use_type_invariant(atlas);
    }
    while i < 6
        invariant
            0 <= i <= 6,
            atlas.wf(),
            mesh.positions@.len() == mesh.normals@.len(),
            mesh.positions@.len() == mesh.uvs@.len(),
            mesh.positions@.len() <= 4 * i,
            is_raw(mesh@),
            faces_mesh(*e, *atlas, textures@, uv_rot, i as nat) == Ok::<MeshView, Failure>(mesh@),
        decreases 6 - i,
    {
        let f = face_in_order(i);
        match e.faces.get(f) {
            None => {},
            Some(face) => match resolve_face_texture(face, textures) {
                None => {},
                Some(name) => match atlas.get_tex_details(name) {
                    Err(err) => {
                        proof {
                            lemma_faces_mesh_fails(*e, *atlas, textures@, uv_rot, (i + 1) as nat, 6);
                        }
                        return Err(err);
                    },
                    Ok(d) => {
                        proof {
                            atlas.lemma_lookup_wf(name@);
                        }
                        mesh.append_face(e, f, &face.uv, &d, uv_rot);
                    },
                },
            },
        }
        i += 1;
    }
    Ok(mesh)
}

/// The steps of a turn by `turns` quarter turns in the negative sense.
pub fn turn_steps_of(turns: u8) -> (s: u8)
    ensures
        s == turn_steps(turns),
{
    (16 - 4 * (turns % 4)) % 16
}

/// Applies the element's rotation and the model's two turns to `p`.
fn place_point_exec(p: Point, rot: &ElementRotation, x_turns: u8, y_turns: u8) -> (r: Point)
    requires
        within(p@, 0x8000_0000),
    ensures
        r@ == place_point(p@, *rot, x_turns, y_turns),
        within(r@, 0x100_0000_0000),
{
    let centre = Point { x: 32768, y: 32768, z: 32768 };
    let turn = Rotation { axis: rot.axis, steps: rot.steps };
    let x_turn = Rotation { axis: Axis::X, steps: turn_steps_of(x_turns) };
    let y_turn = Rotation { axis: Axis::Y, steps: turn_steps_of(y_turns) };
    let origin = rot.origin.to_point();
    proof {
        lemma_rotate_about_range(turn, origin@, p@, 0x8000_0000);
        let a = rotate_about(turn, origin@, p@);
        lemma_rotate_about_range(x_turn, block_centre(), a, 10737418241int);
        let b = rotate_about(x_turn, block_centre(), a);
        lemma_rotate_about_range(y_turn, block_centre(), b, 53687091206int);
    }
    let a = rot_vert_with_orig(turn, origin, p);
    let b = rot_vert_with_orig(x_turn, centre, a);
    rot_vert_with_orig(y_turn, centre, b)
}

/// Applies the element's rotation and the model's two turns to the
/// direction `n`.
fn place_normal_exec(n: Point, rot: &ElementRotation, x_turns: u8, y_turns: u8) -> (r: Point)
    requires
        within(n@, 16384),
    ensures
        r@ == place_normal(n@, *rot, x_turns, y_turns),
{
    let zero = Point { x: 0, y: 0, z: 0 };
    let turn = Rotation { axis: rot.axis, steps: rot.steps };
    let x_turn = Rotation { axis: Axis::X, steps: turn_steps_of(x_turns) };
    let y_turn = Rotation { axis: Axis::Y, steps: turn_steps_of(y_turns) };
    proof {
        lemma_rotate_about_range(turn, (0, 0, 0), n@, 16384);
        let a = rotate_about(turn, (0, 0, 0), n@);
        lemma_rotate_about_range(x_turn, (0, 0, 0), a, 81921int);
    }
    let a = rot_vert_with_orig(turn, zero, n);
    let b = rot_vert_with_orig(x_turn, zero, a);
    rot_vert_with_orig(y_turn, zero, b)
}

/// Places a mesh that comes straight from an element: rotates positions
/// and normals by the element's rotation and the model's turns, and takes
/// the positions relative to the rotated midpoint of the element.
pub fn place_mesh(m: ElementMesh, rot: &ElementRotation, x_turns: u8, y_turns: u8) -> (r:
    ElementMesh)
    requires
        is_raw(m@),
    ensures
        r@ == placed_mesh(m@, *rot, x_turns, y_turns),
{
    let offset = place_point_exec(m.offset, rot, x_turns, y_turns);
    let mut positions: Vec<Point> = Vec::new();
    let mut i: usize = 0;
    while i < m.positions.len()
        invariant
            0 <= i <= m.positions@.len(),
            is_raw(m@),
            within(offset@, 0x100_0000_0000),
            offset@ == place_point(m@.offset, *rot, x_turns, y_turns),
            positions@.len() == i,
            forall|j: int|
                0 <= j < i ==> (#[trigger] positions@[j])@ == placed_mesh(
                    m@,
                    *rot,
                    x_turns,
                    y_turns,
                ).positions[j],
        decreases m.positions@.len() - i,
    {
        assert(within(m@.positions[i as int], 0x8000_0000));
        let p = place_point_exec(m.positions[i], rot, x_turns, y_turns);
        positions.push(Point { x: p.x - offset.x, y: p.y - offset.y, z: p.z - offset.z });
        i += 1;
    }
    let mut normals: Vec<Point> = Vec::new();
    let mut k: usize = 0;
    while k < m.normals.len()
        invariant
            0 <= k <= m.normals@.len(),
            is_raw(m@),
            normals@.len() == k,
            forall|j: int|
                0 <= j < k ==> (#[trigger] normals@[j])@ == place_normal(
                    m@.normals[j],
                    *rot,
                    x_turns,
                    y_turns,
                ),
        decreases m.normals@.len() - k,
    {
        assert(within(m@.normals[k as int], 16384));
        let n = place_normal_exec(m.normals[k], rot, x_turns, y_turns);
        normals.push(n);
        k += 1;
    }
    let r = ElementMesh {
        positions,
        normals,
        uvs: m.uvs,
        indices: m.indices,
        has_transparency: m.has_transparency,
        offset,
    };
    proof {
        let want = placed_mesh(m@, *rot, x_turns, y_turns);
        assert(r@.positions =~= want.positions);
        assert(r@.normals =~= want.normals);
        assert(r@.uvs =~= want.uvs);
        assert(r@.indices =~= want.indices);
    }
    r
}

/// The placed mesh of element `k` of `model`.
fn element_mesh_at(model: &ProcessedModel, atlas: &TextureAtlas, k: usize) -> (r: Result<
    ElementMesh,
    ResolveError,
>)
    requires
        k < model.elements@.len(),
    ensures
        match r {
            Ok(m) => element_at(*model, *atlas, k as int) == Ok::<MeshView, Failure>(m@),
            Err(err) => element_at(*model, *atlas, k as int) == Err::<MeshView, Failure>(err@),
        },
{
    reveal(element_at);
    let uv_rot = if model.uv_lock {
        UvLock { x_steps: turn_steps_of(model.x_turns), y_steps: turn_steps_of(model.y_turns) }
    } else {
        UvLock { x_steps: 0, y_steps: 0 }
    };
    let element = &model.elements[k];
    match element_mesh(element, atlas, &model.textures, uv_rot) {
        Err(err) => Err(err),
        Ok(raw) => Ok(place_mesh(raw, &element.rotation, model.x_turns, model.y_turns)),
    }
}

/// Appends the placed meshes of the elements of `model` to `meshes`.
fn append_model_meshes(model: &ProcessedModel, atlas: &TextureAtlas, meshes: &mut Vec<ElementMesh>)
    -> (r: Result<(), ResolveError>)
    ensures
        match r {
            Ok(_) => exists|t: Seq<MeshView>|
                model_meshes(*model, *atlas, model.elements@.len()) == Ok::<
                    Seq<MeshView>,
                    Failure,
                >(t) && mesh_views(final(meshes)@) == mesh_views(old(meshes)@) + t,
            Err(err) => model_meshes(*model, *atlas, model.elements@.len()) == Err::<
                Seq<MeshView>,
                Failure,
            >(err@),
        },
{
    let ghost mut done: Seq<MeshView> = Seq::empty();
    let mut k: usize = 0;
    assert(mesh_views(meshes@) =~= mesh_views(old(meshes)@) + done);
    while k < model.elements.len()
        invariant
            0 <= k <= model.elements@.len(),
            model_meshes(*model, *atlas, k as nat) == Ok::<Seq<MeshView>, Failure>(done),
            meshes@.len() == old(meshes)@.len() + done.len(),
            mesh_views(meshes@) == mesh_views(old(meshes)@) + done,
        decreases model.elements@.len() - k,
    {
        match element_mesh_at(model, atlas, k) {
            Err(err) => {
                proof {
                    lemma_model_meshes_fails(
                        *model,
                        *atlas,
                        (k + 1) as nat,
                        model.elements@.len(),
                    );
                }
                return Err(err);
            },
            Ok(placed) => {
                let ghost before = meshes@;
                let ghost kept = done;
                let ghost placed_view = placed@;
                proof {
                    done = done.push(placed@);
                }
                meshes.push(placed);
                proof {
                    let have = mesh_views(meshes@);
                    let want = mesh_views(old(meshes)@) + done;
                    assert(have.len() == want.len());
                    assert forall|j: int| 0 <= j < have.len() implies have[j] == want[j] by {
                        if j < before.len() {
                            assert(mesh_views(before)[j] == (mesh_views(old(meshes)@) + kept)[j]);
                            assert(have[j] == before[j]@);
                        } else {
                            assert(have[j] == placed_view);
                        }
                    }
                    assert(have =~= want);
                }
            },
        }
        k += 1;
    }
    Ok(())
}

/// Builds the meshes of the block-state `block`: for each of its models and
/// each element of the model, in order, the element's mesh, rotated by the
/// element's rotation and the model's turns and recentred. The tint of the
/// block-state comes back with them.
pub fn create_mesh_for_block(block: &str, atlas: &TextureAtlas, block_models: &BlockModels) -> (r:
    Result<(Vec<ElementMesh>, Option<Tint>), ResolveError>)
    ensures
        match r {
            Ok((meshes, tint)) => create_mesh_spec(block@, *atlas, *block_models) == Ok::<
                (Seq<MeshView>, Option<Tint>),
                Failure,
            >((mesh_views(meshes@), tint)),
            Err(err) => create_mesh_spec(block@, *atlas, *block_models) == Err::<
                (Seq<MeshView>, Option<Tint>),
                Failure,
            >(err@),
        },
{
    let entry = match block_models.get(block) {
        Some(entry) => entry,
        None => {
            return Err(ResolveError::new(ErrorKind::NotFound, block));
        },
    };
    let mut meshes: Vec<ElementMesh> = Vec::new();
    let mut i: usize = 0;
    assert(mesh_views(meshes@) =~= Seq::<MeshView>::empty());
    while i < entry.models.len()
        invariant
            0 <= i <= entry.models@.len(),
            block_models.has(block@),
            *entry == block_models.entry(block@),
            block_meshes(entry.models@, *atlas, i as nat) == Ok::<Seq<MeshView>, Failure>(
                mesh_views(meshes@),
            ),
        decreases entry.models@.len() - i,
    {
        match append_model_meshes(&entry.models[i], atlas, &mut meshes) {
            Err(err) => {
                proof {
                    assert(block_meshes(entry.models@, *atlas, (i + 1) as nat) == Err::<
                        Seq<MeshView>,
                        Failure,
                    >(err@));
                    lemma_block_meshes_fails(
                        entry.models@,
                        *atlas,
                        (i + 1) as nat,
                        entry.models@.len(),
                    );
                }
                return Err(err);
            },
            Ok(_) => {},
        }
        i += 1;
    }
    Ok((meshes, entry.tint))
}

/// Once the first `n` elements of a model fail, so do the first `m` for
/// every larger `m`, and with the same failure.
pub proof fn lemma_model_meshes_fails(model: ProcessedModel, atlas: TextureAtlas, n: nat, m: nat)
    requires
        n <= m,
        model_meshes(model, atlas, n) is Err,
    ensures
        model_meshes(model, atlas, m) == model_meshes(model, atlas, n),
    decreases m,
{
    if n < m {
        lemma_model_meshes_fails(model, atlas, n, (m - 1) as nat);
    }
}

/// Once the first `n` models of a block fail, so do the first `m` for every
/// larger `m`, and with the same failure.
pub proof fn lemma_block_meshes_fails(
    models: Seq<ProcessedModel>,
    atlas: TextureAtlas,
    n: nat,
    m: nat,
)
    requires
        n <= m,
        block_meshes(models, atlas, n) is Err,
    ensures
        block_meshes(models, atlas, m) == block_meshes(models, atlas, n),
    decreases m,
{
    if n < m {
        lemma_block_meshes_fails(models, atlas, n, (m - 1) as nat);
    }
}

/// Whether a mesh is made of quads: four vertices and six indices each,
/// one normal and one texture coordinate per vertex, and every index that
/// of a vertex.
pub open spec fn is_quad_mesh(m: MeshView) -> bool {
    &&& m.normals.len() == m.positions.len()
    &&& m.uvs.len() == m.positions.len()
    &&& m.positions.len() % 4 == 0
    &&& m.indices.len() * 4 == m.positions.len() * 6
    &&& forall|i: int| 0 <= i < m.indices.len() ==> 0 <= #[trigger] m.indices[i] < m.positions.len()
}

/// Every mesh of an element is made of quads, at most six of them.
pub proof fn lemma_element_mesh_is_quads(
    e: Element,
    atlas: TextureAtlas,
    textures: Map<Seq<char>, Seq<char>>,
    uv_rot: UvLock,
    n: nat,
)
    ensures
        faces_mesh(e, atlas, textures, uv_rot, n) matches Ok(m) ==> is_quad_mesh(m)
            && m.positions.len() <= 4 * n,
    decreases n,
{
    if n > 0 {
        lemma_element_mesh_is_quads(e, atlas, textures, uv_rot, (n - 1) as nat);
    }
}

/// Placing a mesh of quads gives a mesh of quads.
pub proof fn lemma_placed_mesh_is_quads(m: MeshView, rot: ElementRotation, x_turns: u8, y_turns: u8)
    requires
        is_quad_mesh(m),
    ensures
        is_quad_mesh(placed_mesh(m, rot, x_turns, y_turns)),
{
}

/// The texture coordinate `t`, a fraction scaled by `UV_ONE` on each axis,
/// mapped into the tile `d`.
pub open spec fn tile_uv(d: TextureDetails, t: (int, int)) -> (int, int) {
    (
        lerp_pixels(d.rect.min_x as int, d.rect.max_x as int, t.0),
        lerp_pixels(d.rect.min_y as int, d.rect.max_y as int, t.1),
    )
}

/// Whether two meshes differ in nothing but their texture coordinates.
pub open spec fn same_geometry(a: MeshView, b: MeshView) -> bool {
    &&& a.positions == b.positions
    &&& a.normals == b.normals
    &&& a.indices == b.indices
    &&& a.has_transparency == b.has_transparency
    &&& a.offset == b.offset
    &&& a.uvs.len() == b.uvs.len()
}

/// Locking the texture coordinates changes nothing but the texture
/// coordinates: with any two settings an element gives meshes with the same
/// positions, normals, indices, transparency and offset, or fails alike.
pub proof fn lemma_uv_lock_keeps_geometry(
    e: Element,
    atlas: TextureAtlas,
    textures: Map<Seq<char>, Seq<char>>,
    locked: UvLock,
    free: UvLock,
    n: nat,
)
    ensures
        match faces_mesh(e, atlas, textures, locked, n) {
            Ok(a) => faces_mesh(e, atlas, textures, free, n) matches Ok(b) && same_geometry(a, b),
            Err(err) => faces_mesh(e, atlas, textures, free, n) == Err::<MeshView, Failure>(err),
        },
    decreases n,
{
    if n > 0 {
        lemma_uv_lock_keeps_geometry(e, atlas, textures, locked, free, (n - 1) as nat);
    }
}

/// Placing keeps texture coordinates and indices, and two meshes that
/// differ only in their texture coordinates still do so once they are
/// placed: locking the textures of a model moves no vertex.
pub proof fn lemma_placing_keeps_geometry(
    a: MeshView,
    b: MeshView,
    rot: ElementRotation,
    x_turns: u8,
    y_turns: u8,
)
    requires
        same_geometry(a, b),
    ensures
        same_geometry(placed_mesh(a, rot, x_turns, y_turns), placed_mesh(b, rot, x_turns, y_turns)),
        placed_mesh(a, rot, x_turns, y_turns).uvs == a.uvs,
        placed_mesh(a, rot, x_turns, y_turns).indices == a.indices,
{
    assert(placed_mesh(a, rot, x_turns, y_turns).positions =~= placed_mesh(
        b,
        rot,
        x_turns,
        y_turns,
    ).positions);
    assert(placed_mesh(a, rot, x_turns, y_turns).normals =~= placed_mesh(
        b,
        rot,
        x_turns,
        y_turns,
    ).normals);
}

/// With the lock on, the coordinate that is mapped into the tile is the
/// coordinate of the unlocked case turned by the face's steps about the
/// texture's centre; with no steps it is that coordinate itself.
pub proof fn lemma_uv_lock_counter_rotates(uv: Option<UvRect>, c: Corner, steps: u8, d: TextureDetails)
    ensures
        corner_uv(uv, c, 0, d) == tile_uv(d, corner_base_uv(uv, c)),
        corner_uv(uv, c, steps, d) == tile_uv(d, rotate_uv(steps, corner_base_uv(uv, c))),
{
    let t = corner_base_uv(uv, c);
    crate::geometry::lemma_no_turn(Axis::Y, (32768, 0, 32768), (t.0, 0, t.1));
}

/// A model that locks its textures and is turned by one quarter about the
/// vertical axis turns the coordinates of its top and bottom faces by a
/// quarter about the centre: `(u, v)` becomes `(UV_ONE - v, u)`.
pub proof fn lemma_quarter_turn_uv_lock(model: ProcessedModel, f: BlockFace, t: (int, int))
    requires
        model.uv_lock,
        model.y_turns == 1,
        is_vertical(f),
    ensures
        uv_steps(f, model_uv_lock(model)) == 12,
        rotate_uv(12, t) == (65536 - t.1, t.0),
{
    crate::geometry::lemma_quarter_turns_exact(t.1 - 32768, t.0 - 32768);
}

/// Building the meshes of a block-state twice gives the same meshes and
/// the same tint.
pub proof fn lemma_same_input_same_meshes(
    block: Seq<char>,
    atlas: TextureAtlas,
    block_models: BlockModels,
    first: Result<(Seq<MeshView>, Option<Tint>), Failure>,
    second: Result<(Seq<MeshView>, Option<Tint>), Failure>,
)
    requires
        first == create_mesh_spec(block, atlas, block_models),
        second == create_mesh_spec(block, atlas, block_models),
    ensures
        first == second,
{
}

/// Once the first `n` faces fail, so do the first `m` for every larger `m`,
/// and with the same failure.
pub proof fn lemma_faces_mesh_fails(
    e: Element,
    atlas: TextureAtlas,
    textures: Map<Seq<char>, Seq<char>>,
    uv_rot: UvLock,
    n: nat,
    m: nat,
)
    requires
        n <= m,
        faces_mesh(e, atlas, textures, uv_rot, n) is Err,
    ensures
        faces_mesh(e, atlas, textures, uv_rot, m) == faces_mesh(e, atlas, textures, uv_rot, n),
    decreases m,
{
    if n < m {
        lemma_faces_mesh_fails(e, atlas, textures, uv_rot, n, (m - 1) as nat);
    }
}

} // verus!
