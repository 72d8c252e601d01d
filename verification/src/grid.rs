//! The voxel grid: a box of block-state strings.

use vstd::prelude::*;

verus! {

/// A box of `size.0` by `size.1` by `size.2` cells, each holding a
/// block-state string. Cells are kept with `z` running fastest, then `y`.
#[derive(Debug, PartialEq, Eq)]
pub struct Blocks {
    size: (u32, u32, u32),
    cells: Vec<String>,
}

/// Position of the cell `(x, y, z)` in a box of the given size.
pub open spec fn cell_index(size: (u32, u32, u32), x: int, y: int, z: int) -> int {
    (x * size.1 + y) * size.2 + z
}

/// The cell `(x, y, z)` has a position below the number of cells.
pub proof fn lemma_cell_index(size: (u32, u32, u32), x: int, y: int, z: int)
    requires
        0 <= x < size.0,
        0 <= y < size.1,
        0 <= z < size.2,
    ensures
        0 <= cell_index(size, x, y, z) < size.0 * size.1 * size.2,
        0 <= x * size.1 + y < size.0 * size.1,
        0 <= x * size.1 <= size.0 * size.1,
        0 <= (x * size.1 + y) * size.2 <= size.0 * size.1 * size.2,
        size.0 * size.1 <= size.0 * size.1 * size.2,
{
    let sx = size.0 as int;
    let sy = size.1 as int;
    let sz = size.2 as int;
    assert(0 <= x * sy && x * sy + sy <= sx * sy) by (nonlinear_arith)
        requires
            0 <= x < sx,
            0 <= sy,
    ;
    let row = x * sy + y;
    assert(0 <= row * sz && row * sz + sz <= (sx * sy) * sz) by (nonlinear_arith)
        requires
            0 <= row < sx * sy,
            0 <= sz,
    ;
    assert(sx * sy <= (sx * sy) * sz) by (nonlinear_arith)
        requires
            0 <= sx * sy,
            1 <= sz,
    ;
}

impl Blocks {
    /// Extent of the box on each axis.
    pub closed spec fn spec_size(&self) -> (u32, u32, u32) {
        self.size
    }

    /// The block-state strings in scan order: `x` outermost, `z` innermost.
    pub closed spec fn view(&self) -> Seq<Seq<char>> {
        Seq::new(self.cells@.len(), |i: int| self.cells@[i]@)
    }

    /// There is one string per cell.
    #[verifier::type_invariant]
    pub open spec fn wf(&self) -> bool {
        self@.len() == self.spec_size().0 * self.spec_size().1 * self.spec_size().2
    }

    /// A box of the given size over `cells`, or nothing if their number is
    /// not that of the box.
    pub fn new(size: (u32, u32, u32), cells: Vec<String>) -> (r: Option<Self>)
        ensures
            match r {
                Some(b) => b.wf() && b.spec_size() == size && b@ == Seq::new(
                    cells@.len(),
                    |i: int| cells@[i]@,
                ),
                None => cells@.len() != size.0 * size.1 * size.2,
            },
    {
        assert(size.0 * size.1 <= 0xFFFF_FFFF * 0xFFFF_FFFF) by (nonlinear_arith)
            requires
                0 <= size.0 <= 0xFFFF_FFFF,
                0 <= size.1 <= 0xFFFF_FFFF,
        ;
        let layer: u64 = size.0 as u64 * size.1 as u64;
        assert(layer * size.2 <= 0xFFFF_FFFF * 0xFFFF_FFFF * 0xFFFF_FFFF) by (nonlinear_arith)
            requires
                0 <= layer <= 0xFFFF_FFFF * 0xFFFF_FFFF,
                0 <= size.2 <= 0xFFFF_FFFF,
        ;
        let total: u128 = layer as u128 * size.2 as u128;
        if cells.len() as u128 == total {
            Some(Blocks { size, cells })
        } else {
            None
        }
    }

    /// Extent of the box on each axis.
    #[verifier::when_used_as_spec(spec_size)]
    pub fn size(&self) -> (s: (u32, u32, u32))
        ensures
            s == self.spec_size(),
    {
        self.size
    }

    /// Number of cells.
    pub fn len(&self) -> (n: usize)
        ensures
            n == self@.len(),
    {
        self.cells.len()
    }

    /// The block-state string at position `i` of the scan order.
    pub fn block_at_index(&self, i: usize) -> (b: &str)
        requires
            i < self@.len(),
        ensures
            b@ == self@[i as int],
    {
        self.cells[i].as_str()
    }

    /// The block-state string of the cell `(x, y, z)`.
    pub fn get_block_at(&self, x: u32, y: u32, z: u32) -> (b: &str)
        requires
            x < self.spec_size().0,
            y < self.spec_size().1,
            z < self.spec_size().2,
        ensures
            b@ == self@[cell_index(self.spec_size(), x as int, y as int, z as int)],
    {
        proof {
            use_type_invariant(self);
            lemma_cell_index(self.size, x as int, y as int, z as int);
        }
        let n = self.cells.len();
        assert(n == self@.len());
        let row: usize = x as usize * self.size.1 as usize + y as usize;
        let i: usize = row * self.size.2 as usize + z as usize;
        self.cells[i].as_str()
    }
}

} // verus!
