//! What the renderer is told: where each block stands, which material a
//! mesh takes, and when the camera grabs the pointer.

use vstd::prelude::*;
use crate::grid::{cell_index, Blocks};
use crate::palette::{air_name, index_of, lemma_only_air_is_zero, with_name, BlockPalette};
use crate::text::same_text;
use crate::tint::Tint;

verus! {

/// A block to draw: its palette index and its cell.
#[derive(Clone, Copy, PartialEq, Eq, Debug, Structural)]
pub struct Block {
    pub block: usize,
    pub x: u32,
    pub y: u32,
    pub z: u32,
}

/// The material of a mesh.
#[derive(Clone, Copy, PartialEq, Eq, Debug, Structural)]
pub enum Material {
    /// A solid colour in place of the atlas.
    Tinted(Tint),
    /// The atlas, blended.
    Transparent,
    /// The atlas, with a cutout mask.
    Opaque,
}

/// The material of a mesh: the tint's if the block-state has a tint, else
/// the blended one for a mesh with transparency and the masked one for a
/// mesh without.
pub open spec fn material_of(tint: Option<Tint>, has_transparency: bool) -> Material {
    match tint {
        Some(t) => Material::Tinted(t),
        None => if has_transparency {
            Material::Transparent
        } else {
            Material::Opaque
        },
    }
}

/// The material of a mesh.
pub fn material_for(tint: Option<Tint>, has_transparency: bool) -> (m: Material)
    ensures
        m == material_of(tint, has_transparency),
{
    match tint {
        Some(t) => Material::Tinted(t),
        None => if has_transparency {
            Material::Transparent
        } else {
            Material::Opaque
        },
    }
}

/// Whether the camera's grab changes, and to what: a camera that does not
/// hold the pointer grabs it on escape; one that holds it lets go on
/// escape or on `t`.
pub open spec fn grab_change(enabled: bool, escape_pressed: bool, t_pressed: bool) -> Option<
    bool,
> {
    if !enabled && escape_pressed {
        Some(true)
    } else if enabled && (t_pressed || escape_pressed) {
        Some(false)
    } else {
        None
    }
}

/// Whether the camera's grab changes, and to what.
pub fn mouse_grab(enabled: bool, escape_pressed: bool, t_pressed: bool) -> (r: Option<bool>)
    ensures
        r == grab_change(enabled, escape_pressed, t_pressed),
{
    if !enabled && escape_pressed {
        Some(true)
    } else if enabled && (t_pressed || escape_pressed) {
        Some(false)
    } else {
        None
    }
}

/// The palette after the first `n` cells were scanned: every cell that is
/// not air asks for its block-state.
pub open spec fn names_after(cells: Seq<Seq<char>>, names: Seq<Seq<char>>, n: nat) -> Seq<
    Seq<char>,
>
    decreases n,
{
    if n == 0 {
        names
    } else {
        let before = names_after(cells, names, (n - 1) as nat);
        if cells[n - 1] == air_name() {
            before
        } else {
            with_name(before, cells[n - 1])
        }
    }
}

/// The blocks to draw among the first `n` cells, as pairs of palette index
/// and position in scan order: one for every cell that is not air.
pub open spec fn placed_upto(cells: Seq<Seq<char>>, names: Seq<Seq<char>>, n: nat) -> Seq<
    (int, int),
>
    decreases n,
{
    if n == 0 {
        Seq::empty()
    } else {
        let before = placed_upto(cells, names, (n - 1) as nat);
        if cells[n - 1] == air_name() {
            before
        } else {
            before.push((index_of(names_after(cells, names, (n - 1) as nat), cells[n - 1]), n - 1))
        }
    }
}

/// Scans the grid with `x` outermost and `z` innermost. Every cell that is
/// not air gets the palette index of its block-state, which is added to the
/// palette when it is first met, and is listed with its position.
pub fn setup(blocks: &Blocks, block_palette: &mut BlockPalette) -> (r: Vec<Block>)
    ensures
        old(block_palette).wf() ==> final(block_palette).wf(),
        final(block_palette)@ == names_after(blocks@, old(block_palette)@, blocks@.len()),
        r@.len() == placed_upto(blocks@, old(block_palette)@, blocks@.len()).len(),
        forall|k: int|
            0 <= k < r@.len() ==> {
                let want = placed_upto(blocks@, old(block_palette)@, blocks@.len())[k];
                &&& (#[trigger] r@[k]).block == want.0
                &&& (old(block_palette).wf() ==> r@[k].block >= 1)
                &&& r@[k].x < blocks.spec_size().0
                &&& r@[k].y < blocks.spec_size().1
                &&& r@[k].z < blocks.spec_size().2
                &&& cell_index(blocks.spec_size(), r@[k].x as int, r@[k].y as int, r@[k].z as int)
                    == want.1
            },
{
    let mut placed: Vec<Block> = Vec::new();
    let (sx, sy, sz) = blocks.size();
    let n = blocks.len();
    let mut i: usize = 0;
    let mut x: u32 = 0;
    let mut y: u32 = 0;
    let mut z: u32 = 0;
    proof {
        use_type_invariant(blocks);
        assert(sx == 0 || sy == 0 || sz == 0 ==> sx * sy * sz == 0) by (nonlinear_arith);
        assert((0 * sy + 0) * sz + 0 == 0) by (nonlinear_arith);
    }
    while i < n
        invariant
            blocks.wf(),
            n == blocks@.len(),
            (sx, sy, sz) == blocks.spec_size(),
            0 <= i <= n,
            i < n ==> x < sx && y < sy && z < sz,
            i < n ==> i == cell_index(blocks.spec_size(), x as int, y as int, z as int),
            old(block_palette).wf() ==> block_palette.wf(),
            block_palette@ == names_after(blocks@, old(block_palette)@, i as nat),
            placed@.len() == placed_upto(blocks@, old(block_palette)@, i as nat).len(),
            forall|k: int|
                0 <= k < placed@.len() ==> {
                    let want = placed_upto(blocks@, old(block_palette)@, i as nat)[k];
                    &&& (#[trigger] placed@[k]).block == want.0
                    &&& (old(block_palette).wf() ==> placed@[k].block >= 1)
                    &&& placed@[k].x < sx
                    &&& placed@[k].y < sy
                    &&& placed@[k].z < sz
                    &&& cell_index(
                        blocks.spec_size(),
                        placed@[k].x as int,
                        placed@[k].y as int,
                        placed@[k].z as int,
                    ) == want.1
                },
        decreases n - i,
    {
        let block = blocks.block_at_index(i);
        if !same_text(block, "minecraft:air") {
            proof {
                if old(block_palette).wf() {
                    lemma_only_air_is_zero(block_palette@, block@);
                }
            }
            let idx = block_palette.get_or_add(block);
            placed.push(Block { block: idx, x, y, z });
        }
        proof {
            lemma_next_cell(blocks.spec_size(), x as int, y as int, z as int, n as int);
        }
        i += 1;
        if i < n {
            if z + 1 < sz {
                z += 1;
            } else {
                z = 0;
                if y + 1 < sy {
                    y += 1;
                } else {
                    y = 0;
                    x += 1;
                }
            }
        }
    }
    placed
}

/// The cell after `(x, y, z)` in scan order is the next on the `z` axis, or
/// the first of the next row, or the first of the next layer.
proof fn lemma_next_cell(size: (u32, u32, u32), x: int, y: int, z: int, n: int)
    requires
        0 <= x < size.0,
        0 <= y < size.1,
        0 <= z < size.2,
        n == size.0 * size.1 * size.2,
    ensures
        z + 1 < size.2 ==> cell_index(size, x, y, z + 1) == cell_index(size, x, y, z) + 1,
        z + 1 >= size.2 && y + 1 < size.1 ==> cell_index(size, x, y + 1, 0) == cell_index(
            size,
            x,
            y,
            z,
        ) + 1,
        z + 1 >= size.2 && y + 1 >= size.1 ==> cell_index(size, x + 1, 0, 0) == cell_index(
            size,
            x,
            y,
            z,
        ) + 1,
        z + 1 >= size.2 && y + 1 >= size.1 && cell_index(size, x, y, z) + 1 < n ==> x + 1 < size.0,
{
    let sy = size.1 as int;
    let sz = size.2 as int;
    let sx = size.0 as int;
    assert((x * sy + (y + 1)) * sz == (x * sy + y) * sz + sz) by (nonlinear_arith);
    assert(((x + 1) * sy) * sz == (x * sy + sy) * sz) by (nonlinear_arith);
    assert((x * sy + sy) * sz == (x * sy + (sy - 1)) * sz + sz) by (nonlinear_arith);
    if z + 1 >= sz && y + 1 >= sy && x + 1 >= sx {
        assert((sx * sy) * sz == ((sx - 1) * sy + (sy - 1)) * sz + sz) by (nonlinear_arith);
    }
}

} // verus!
