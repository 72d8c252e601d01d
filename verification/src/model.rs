//! Model descriptions: elements, faces, texture tables and model references.

use vstd::prelude::*;
use crate::geometry::{Axis, Point};
use crate::table::StringMap;
use crate::text::{lemma_name_index, name_index, same_text};
use crate::tint::Tint;

verus! {

/// The table of texture variables of a model: name to literal path, or to
/// `#other` for the value of another variable.
pub type Textures = StringMap;

/// The six faces of a cuboid.
#[derive(Clone, Copy, PartialEq, Eq, Debug, Structural)]
pub enum BlockFace {
    Down,
    Up,
    North,
    South,
    West,
    East,
}

/// A position inside a model, in ticks.
#[derive(Clone, Copy, PartialEq, Eq, Debug, Structural)]
pub struct ModelPoint {
    pub x: i32,
    pub y: i32,
    pub z: i32,
}

/// The part of a texture that a face shows, in ticks: `(x1, y1)` and
/// `(x2, y2)` are opposite corners, and `UV_ONE` ticks span the texture.
#[derive(Clone, Copy, PartialEq, Eq, Debug, Structural)]
pub struct UvRect {
    pub x1: i32,
    pub y1: i32,
    pub x2: i32,
    pub y2: i32,
}

/// One face of an element.
#[derive(Clone, Debug, PartialEq, Eq)]
pub struct ElementFace {
    pub uv: Option<UvRect>,
    pub texture: String,
}

/// The faces of an element; an absent face is not drawn.
#[derive(Clone, Debug, PartialEq, Eq)]
pub struct ElementFaces {
    pub down: Option<ElementFace>,
    pub up: Option<ElementFace>,
    pub north: Option<ElementFace>,
    pub south: Option<ElementFace>,
    pub west: Option<ElementFace>,
    pub east: Option<ElementFace>,
}

/// The rotation of an element about `origin`, by `steps` times 22.5 degrees
/// around `axis`, counted modulo sixteen.
#[derive(Clone, Copy, PartialEq, Eq, Debug, Structural)]
pub struct ElementRotation {
    pub origin: ModelPoint,
    pub axis: Axis,
    pub steps: u8,
}

/// An axis-aligned cuboid of a model.
#[derive(Clone, Debug, PartialEq, Eq)]
pub struct Element {
    pub from: ModelPoint,
    pub to: ModelPoint,
    pub faces: ElementFaces,
    pub rotation: ElementRotation,
}

/// A model as declared: it may name a parent, set texture variables and
/// list elements.
#[derive(Clone, Debug, PartialEq, Eq)]
pub struct ModelDefinition {
    pub parent: Option<String>,
    pub textures: Option<Textures>,
    pub elements: Option<Vec<Element>>,
}

/// A reference to a model from a block-state, with the rotation of the
/// whole model in degrees, the uv-lock flag and the selection weight.
#[derive(Clone, Debug, PartialEq, Eq)]
pub struct ModelProperties {
    pub model: String,
    pub x: i32,
    pub y: i32,
    pub uv_lock: bool,
    pub weight: u32,
}

/// A resolved model: its textures are literal paths, and its elements come
/// from the whole chain of parents. `x_turns` and `y_turns` count the
/// quarter turns of the model about the block's centre, modulo four.
#[derive(Clone, Debug, PartialEq, Eq)]
pub struct ProcessedModel {
    pub x_turns: u8,
    pub y_turns: u8,
    pub uv_lock: bool,
    pub textures: Textures,
    pub elements: Vec<Element>,
}

/// A resolved model as contracts speak of it.
pub struct ProcessedView {
    pub x_turns: u8,
    pub y_turns: u8,
    pub uv_lock: bool,
    pub textures: Seq<(Seq<char>, Seq<char>)>,
    pub elements: Seq<Element>,
}

impl ProcessedModel {
    /// The model as a mathematical value.
    pub open spec fn view(&self) -> ProcessedView {
        ProcessedView {
            x_turns: self.x_turns,
            y_turns: self.y_turns,
            uv_lock: self.uv_lock,
            textures: self.textures.pairs(),
            elements: self.elements@,
        }
    }
}

/// The models of one block-state and its tint, if it has one.
#[derive(Clone, Debug, PartialEq, Eq)]
pub struct BlockModel {
    pub block: String,
    pub models: Vec<ProcessedModel>,
    pub tint: Option<Tint>,
}

/// The models of every block-state seen so far, in first-seen order.
#[derive(Clone, Debug, PartialEq, Eq)]
pub struct BlockModels {
    entries: Vec<BlockModel>,
}

/// The block-state strings of the entries, in order.
pub open spec fn block_names(entries: Seq<BlockModel>) -> Seq<Seq<char>> {
    Seq::new(entries.len(), |i: int| entries[i].block@)
}

impl BlockModels {
    /// The entries in first-seen order.
    pub closed spec fn view(&self) -> Seq<BlockModel> {
        self.entries@
    }

    /// Whether there is an entry for the block `name`.
    pub open spec fn has(&self, name: Seq<char>) -> bool {
        name_index(block_names(self@), name, 0) < self@.len()
    }

    /// The first entry for the block `name`.
    pub open spec fn entry(&self, name: Seq<char>) -> BlockModel {
        self@[name_index(block_names(self@), name, 0)]
    }

    /// No entries.
    pub fn new() -> (r: Self)
        ensures
            r@ == Seq::<BlockModel>::empty(),
    {
        BlockModels { entries: Vec::new() }
    }

    /// Number of entries.
    pub fn len(&self) -> (n: usize)
        ensures
            n == self@.len(),
    {
        self.entries.len()
    }

    /// The first entry for `block`, if there is one.
    pub fn get(&self, block: &str) -> (r: Option<&BlockModel>)
        ensures
            match r {
                Some(entry) => self.has(block@) && *entry == self.entry(block@),
                None => !self.has(block@),
            },
    {
        let n = self.entries.len();
        let mut i: usize = 0;
        let ghost names = block_names(self@);
        proof {
            lemma_name_index(names, block@, 0);
        }
        while i < n
            invariant
                n == self@.len(),
                n == self.entries@.len(),
                names == block_names(self@),
                0 <= i <= n,
                name_index(names, block@, 0) == name_index(names, block@, i as int),
            decreases n - i,
        {
            if same_text(self.entries[i].block.as_str(), block) {
                return Some(&self.entries[i]);
            }
            i += 1;
        }
        None
    }

    /// Appends an entry.
    pub fn push(&mut self, entry: BlockModel)
        ensures
            final(self)@ == old(self)@.push(entry),
    {
        self.entries.push(entry);
    }
}

impl ModelPoint {
    /// The position widened to a `Point`.
    pub fn to_point(&self) -> (p: Point)
        ensures
            p == self.as_point(),
    {
        Point { x: self.x as i64, y: self.y as i64, z: self.z as i64 }
    }

    /// The position widened to a `Point`.
    pub open spec fn as_point(&self) -> Point {
        Point { x: self.x as i64, y: self.y as i64, z: self.z as i64 }
    }
}

impl ElementFace {
    /// A copy of the face.
    pub fn duplicate(&self) -> (r: Self)
        ensures
            r == *self,
    {
        ElementFace { uv: self.uv, texture: self.texture.clone() }
    }
}

/// A copy of an optional face.
fn duplicate_face(face: &Option<ElementFace>) -> (r: Option<ElementFace>)
    ensures
        r == *face,
{
    match face {
        Some(f) => Some(f.duplicate()),
        None => None,
    }
}

impl ElementFaces {
    /// No face at all.
    pub fn none() -> (r: Self)
        ensures
            forall|f: BlockFace| r.face(f) is None,
    {
        ElementFaces { down: None, up: None, north: None, south: None, west: None, east: None }
    }

    /// The face on side `f`, if the element has one.
    pub open spec fn face(&self, f: BlockFace) -> Option<ElementFace> {
        match f {
            BlockFace::Down => self.down,
            BlockFace::Up => self.up,
            BlockFace::North => self.north,
            BlockFace::South => self.south,
            BlockFace::West => self.west,
            BlockFace::East => self.east,
        }
    }

    /// The face on side `f`, if the element has one.
    pub fn get(&self, f: BlockFace) -> (r: &Option<ElementFace>)
        ensures
            *r == self.face(f),
    {
        match f {
            BlockFace::Down => &self.down,
            BlockFace::Up => &self.up,
            BlockFace::North => &self.north,
            BlockFace::South => &self.south,
            BlockFace::West => &self.west,
            BlockFace::East => &self.east,
        }
    }

    /// A copy of the faces.
    pub fn duplicate(&self) -> (r: Self)
        ensures
            r == *self,
    {
        ElementFaces {
            down: duplicate_face(&self.down),
            up: duplicate_face(&self.up),
            north: duplicate_face(&self.north),
            south: duplicate_face(&self.south),
            west: duplicate_face(&self.west),
            east: duplicate_face(&self.east),
        }
    }
}

impl Element {
    /// A copy of the element.
    pub fn duplicate(&self) -> (r: Self)
        ensures
            r == *self,
    {
        Element {
            from: self.from,
            to: self.to,
            faces: self.faces.duplicate(),
            rotation: self.rotation,
        }
    }
}

impl ModelProperties {
    /// A copy of the reference.
    pub fn duplicate(&self) -> (r: Self)
        ensures
            r == *self,
    {
        ModelProperties {
            model: self.model.clone(),
            x: self.x,
            y: self.y,
            uv_lock: self.uv_lock,
            weight: self.weight,
        }
    }
}

} // verus!
