//! One chunk's voxels: 4096 columns of 64 heights, one bit per voxel.
use vstd::prelude::*;
use crate::bits::{
    bit, count_below, popcount, lemma_bit_and, lemma_bit_not, lemma_bit_or, lemma_bit_single,
    lemma_bit_zero, lemma_count_bounded,
};
use crate::position::{
    column_index, in_chunk, extract_grid_index, extract_height, linearize_position, COLUMNS,
};

verus! {

/// The voxels of one chunk. Column `x + 64 z` of `raw` holds the column at `(x, z)`;
/// its bit `y` is set where the voxel at height `y` is filled.
pub struct VoxelStorage {
    pub raw: Vec<u64>,
}

/// Sum of the set bits of the first `n` columns.
pub open spec fn columns_count(cols: Seq<u64>, n: nat) -> nat
    decreases n,
{
    if n == 0 {
        0
    } else {
        columns_count(cols, (n - 1) as nat) + popcount(cols[n - 1])
    }
}

/// Number of filled voxels in a sequence of columns.
pub open spec fn total_count(cols: Seq<u64>) -> nat {
    columns_count(cols, cols.len())
}

/// Replacing one column changes the count by the difference of the two columns' counts.
pub proof fn lemma_columns_count_update(cols: Seq<u64>, i: int, v: u64, n: nat)
    requires
        0 <= i < cols.len(),
        n <= cols.len(),
    ensures
        columns_count(cols.update(i, v), n) == if i < n {
            columns_count(cols, n) - popcount(cols[i]) + popcount(v)
        } else {
            columns_count(cols, n) as int
        },
    decreases n,
{
    if n > 0 {
        lemma_columns_count_update(cols, i, v, (n - 1) as nat);
        if i < n - 1 {
            lemma_columns_prefix_ge(cols, i, (n - 1) as nat);
        }
    }
}

/// The first `n` columns hold at least what one of them holds.
proof fn lemma_columns_prefix_ge(cols: Seq<u64>, i: int, n: nat)
    requires
        0 <= i < n,
        n <= cols.len(),
    ensures
        columns_count(cols, n) >= popcount(cols[i]),
    decreases n,
{
    if i < n - 1 {
        lemma_columns_prefix_ge(cols, i, (n - 1) as nat);
    }
}

/// A chunk holds at most 64 filled voxels per column.
pub proof fn lemma_total_count_bounded(cols: Seq<u64>)
    requires
        cols.len() == 4096,
    ensures
        total_count(cols) <= 262144,
{
    lemma_columns_count_bounded(cols, 4096);
}

/// The first `n` columns hold at most `64 n` filled voxels.
proof fn lemma_columns_count_bounded(cols: Seq<u64>, n: nat)
    requires
        n <= cols.len(),
    ensures
        columns_count(cols, n) <= 64 * n,
    decreases n,
{
    if n > 0 {
        lemma_columns_count_bounded(cols, (n - 1) as nat);
        lemma_count_bounded(cols[n - 1], 64);
    }
}

/// The voxel at `(x, y, z)` of the columns `raw` is filled.
pub open spec fn voxel_at(raw: Seq<u64>, x: int, y: int, z: int) -> bool {
    bit(raw[column_index(x, z)], y as u64)
}

/// The columns `raw` with the voxel at `p` filled.
pub open spec fn with_voxel(raw: Seq<u64>, p: [u8; 3]) -> Seq<u64> {
    let i = column_index(p[0] as int, p[2] as int);
    raw.update(i, raw[i] | (1u64 << p[1]))
}

/// The columns of an empty storage.
pub open spec fn empty_columns() -> Seq<u64> {
    Seq::new(4096, |i: int| 0u64)
}

/// No voxel of an empty storage is filled. Filling the voxel at `p` makes it read
/// filled, and every other voxel reads as it did before.
pub proof fn lemma_set_get(raw: Seq<u64>, p: [u8; 3], x: int, y: int, z: int)
    requires
        raw.len() == 4096,
        in_chunk(p),
        0 <= x < 64,
        0 <= y < 64,
        0 <= z < 64,
    ensures
        !voxel_at(empty_columns(), x, y, z),
        voxel_at(with_voxel(raw, p), x, y, z) == (voxel_at(raw, x, y, z) || (x == p[0] && y
            == p[1] && z == p[2])),
{
    lemma_bit_zero(y as u64);
    let i = column_index(p[0] as int, p[2] as int);
    lemma_column_index_injective(x, z, p[0] as int, p[2] as int);
    if column_index(x, z) == i {
        lemma_bit_or(raw[i], 1u64 << p[1], y as u64);
        lemma_bit_single(p[1] as u64, y as u64);
    }
}

impl VoxelStorage {
    /// The storage holds exactly one column per position of the chunk.
    pub open spec fn wf(&self) -> bool {
        self.raw@.len() == 4096
    }

    /// The column at `(x, z)`.
    pub open spec fn column(&self, x: int, z: int) -> u64 {
        self.raw@[column_index(x, z)]
    }

    /// The voxel at `(x, y, z)` is filled.
    pub open spec fn voxel(&self, x: int, y: int, z: int) -> bool {
        voxel_at(self.raw@, x, y, z)
    }

    /// Number of filled voxels.
    pub open spec fn filled(&self) -> nat {
        total_count(self.raw@)
    }

    /// A storage with every voxel empty.
    pub fn empty() -> (r: VoxelStorage)
        ensures
            r.wf(),
            r.raw@ == empty_columns(),
            forall|x: int, y: int, z: int|
                0 <= x < 64 && 0 <= y < 64 && 0 <= z < 64 ==> !#[trigger] r.voxel(x, y, z),
    {
        let mut raw: Vec<u64> = Vec::new();
        let mut i: usize = 0;
        while i < COLUMNS
            invariant
                i <= 4096,
                raw@.len() == i,
                forall|j: int| 0 <= j < i ==> raw@[j] == 0,
            decreases 4096 - i,
        {
            raw.push(0);
            i = i + 1;
        }
        let r = VoxelStorage { raw };
        assert(r.raw@ =~= empty_columns());
        assert forall|x: int, y: int, z: int|
            0 <= x < 64 && 0 <= y < 64 && 0 <= z < 64 implies !#[trigger] r.voxel(x, y, z) by {
            lemma_set_get(r.raw@, [0, 0, 0], x, y, z);
        }
        r
    }

    /// Fills the voxel at `coords`.
    pub fn set(&mut self, coords: [u8; 3])
        requires
            old(self).wf(),
            in_chunk(coords),
        ensures
            final(self).wf(),
            final(self).raw@ == with_voxel(old(self).raw@, coords),
            forall|x: int, y: int, z: int|
                0 <= x < 64 && 0 <= y < 64 && 0 <= z < 64 ==> #[trigger] final(self).voxel(x, y, z)
                    == (old(self).voxel(x, y, z) || (x == coords[0] && y == coords[1] && z
                    == coords[2])),
    {
        let lin = linearize_position(coords);
        let height = extract_height(lin);
        let grid_position = extract_grid_index(lin) as usize;
        assert(height == coords[1] && grid_position == column_index(coords[0] as int, coords[2] as int))
            by (nonlinear_arith)
            requires
                lin == coords[1] * 4096 + coords[0] + 64 * coords[2],
                height == lin / 4096,
                grid_position == lin % 4096,
                coords[0] < 64,
                coords[2] < 64,
        ;
        let column = self.raw[grid_position] | (1u64 << height);
        self.raw.set(grid_position, column);
        assert forall|x: int, y: int, z: int|
            0 <= x < 64 && 0 <= y < 64 && 0 <= z < 64 implies #[trigger] self.voxel(x, y, z) == (old(
                self,
            ).voxel(x, y, z) || (x == coords[0] && y == coords[1] && z == coords[2])) by {
            lemma_set_get(old(self).raw@, coords, x, y, z);
        }
    }

    /// Whether the voxel at `coords` is filled.
    pub fn get(&self, coords: [u8; 3]) -> (r: bool)
        requires
            self.wf(),
            in_chunk(coords),
        ensures
            r == self.voxel(coords[0] as int, coords[1] as int, coords[2] as int),
    {
        let lin = linearize_position(coords);
        let height = extract_height(lin);
        let grid_position = extract_grid_index(lin) as usize;
        assert(height == coords[1] && grid_position == column_index(coords[0] as int, coords[2] as int))
            by (nonlinear_arith)
            requires
                lin == coords[1] * 4096 + coords[0] + 64 * coords[2],
                height == lin / 4096,
                grid_position == lin % 4096,
                coords[0] < 64,
                coords[2] < 64,
        ;
        let column = self.raw[grid_position];
        let pattern = 1u64 << height;
        proof {
            lemma_bit_and(column, pattern, height as u64);
            lemma_bit_single(height as u64, height as u64);
            assert forall|j: u64| j < 64 && j != height implies !bit(column & pattern, j) by {
                lemma_bit_and(column, pattern, j);
                lemma_bit_single(height as u64, j);
            }
            lemma_nonzero_iff_some_bit(column & pattern, height as u64);
        }
        (column & pattern) != 0
    }

    /// The column at `coords = [x, z]`.
    pub fn get_pillar(&self, coords: [u8; 2]) -> (r: u64)
        requires
            self.wf(),
            coords[0] < 64,
            coords[1] < 64,
        ensures
            r == self.column(coords[0] as int, coords[1] as int),
    {
        self.raw[coords[0] as usize + coords[1] as usize * 64]
    }

    /// Replaces the column at `coords = [x, z]` by `pillar`.
    pub fn set_pillar(&mut self, coords: [u8; 2], pillar: u64)
        requires
            old(self).wf(),
            coords[0] < 64,
            coords[1] < 64,
        ensures
            final(self).wf(),
            final(self).raw@ == old(self).raw@.update(
                column_index(coords[0] as int, coords[1] as int),
                pillar,
            ),
    {
        self.raw.set(coords[0] as usize + coords[1] as usize * 64, pillar);
    }

    /// Empties every voxel that is filled in `other`.
    pub fn subtract(&mut self, other: &VoxelStorage)
        requires
            old(self).wf(),
            other.wf(),
        ensures
            final(self).wf(),
            forall|i: int|
                0 <= i < 4096 ==> #[trigger] final(self).raw@[i] == old(self).raw@[i] & !other.raw@[i],
            forall|x: int, y: int, z: int|
                0 <= x < 64 && 0 <= y < 64 && 0 <= z < 64 ==> #[trigger] final(self).voxel(x, y, z)
                    == (old(self).voxel(x, y, z) && !other.voxel(x, y, z)),
    {
        let mut i: usize = 0;
        while i < COLUMNS
            invariant
                i <= 4096,
                self.wf(),
                other.wf(),
                forall|j: int| 0 <= j < i ==> self.raw@[j] == old(self).raw@[j] & !other.raw@[j],
                forall|j: int| i <= j < 4096 ==> self.raw@[j] == old(self).raw@[j],
            decreases 4096 - i,
        {
            let a = self.raw[i];
            let b = other.raw[i];
            let both = a & b;
            let kept = a & !both;
            assert(kept == a & !b) by (bit_vector)
                requires
                    both == a & b,
                    kept == a & !both,
            ;
            self.raw.set(i, kept);
            i = i + 1;
        }
        assert forall|x: int, y: int, z: int|
            0 <= x < 64 && 0 <= y < 64 && 0 <= z < 64 implies #[trigger] self.voxel(x, y, z) == (old(
                self,
            ).voxel(x, y, z) && !other.voxel(x, y, z)) by {
            lemma_column_index_bounds(x, z);
            let c = column_index(x, z);
            lemma_bit_and(old(self).raw@[c], !other.raw@[c], y as u64);
            lemma_bit_not(other.raw@[c], y as u64);
        }
    }

    /// Number of filled voxels.
    pub fn count(&self) -> (r: u64)
        requires
            self.wf(),
        ensures
            r == self.filled(),
    {
        let mut total: u64 = 0;
        let mut i: usize = 0;
        while i < COLUMNS
            invariant
                i <= 4096,
                self.wf(),
                total == columns_count(self.raw@, i as nat),
                total <= 64 * i,
            decreases 4096 - i,
        {
            let c = column_count(self.raw[i]);
            total = total + c as u64;
            i = i + 1;
        }
        total
    }
}

/// A storage with every voxel filled has every column full.
pub proof fn lemma_all_filled_is_full(s: VoxelStorage)
    requires
        s.wf(),
        forall|x: int, y: int, z: int|
            0 <= x < 64 && 0 <= y < 64 && 0 <= z < 64 ==> #[trigger] s.voxel(x, y, z),
    ensures
        forall|i: int| 0 <= i < 4096 ==> s.raw@[i] == 0xffff_ffff_ffff_ffffu64,
{
    assert forall|i: int| 0 <= i < 4096 implies s.raw@[i] == 0xffff_ffff_ffff_ffffu64 by {
        let x = i % 64;
        let z = i / 64;
        assert(column_index(x, z) == i);
        assert forall|j: u64| j < 64 implies bit(s.raw@[i], j) == bit(
            0xffff_ffff_ffff_ffffu64,
            j,
        ) by {
            assert(s.voxel(x, j as int, z));
            crate::bits::lemma_bit_max(j);
        }
        crate::bits::lemma_bit_ext(s.raw@[i], 0xffff_ffff_ffff_ffffu64);
    }
}

/// Number of set bits of a column.
pub fn column_count(w: u64) -> (r: u32)
    ensures
        r == popcount(w),
        r <= 64,
{
    let mut n: u32 = 0;
    let mut j: u64 = 0;
    while j < 64
        invariant
            j <= 64,
            n == count_below(w, j as nat),
            n <= j,
        decreases 64 - j,
    {
        proof {
            lemma_count_bounded(w, j as nat);
        }
        if (w >> j) & 1 == 1 {
            n = n + 1;
        }
        j = j + 1;
    }
    n
}

/// A position inside the chunk has a column inside the storage.
pub proof fn lemma_column_index_bounds(x: int, z: int)
    requires
        0 <= x < 64,
        0 <= z < 64,
    ensures
        0 <= column_index(x, z) < 4096,
{
}

/// Distinct positions have distinct columns.
pub proof fn lemma_column_index_injective(x1: int, z1: int, x2: int, z2: int)
    requires
        0 <= x1 < 64,
        0 <= z1 < 64,
        0 <= x2 < 64,
        0 <= z2 < 64,
    ensures
        (column_index(x1, z1) == column_index(x2, z2)) == (x1 == x2 && z1 == z2),
{
}

/// A column is nonzero exactly when one of its heights is set.
pub proof fn lemma_nonzero_iff_some_bit(w: u64, p: u64)
    requires
        p < 64,
        forall|j: u64| j < 64 && j != p ==> !bit(w, j),
    ensures
        (w != 0) == bit(w, p),
{
    if !bit(w, p) {
        assert forall|j: u64| j < 64 implies bit(w, j) == bit(0u64, j) by {
            lemma_bit_zero(j);
        }
        crate::bits::lemma_bit_ext(w, 0u64);
    } else {
        lemma_bit_zero(p);
    }
}

} // verus!
