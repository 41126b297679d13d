//! A world of chunks on a rectangular grid, each with a ground and a water layer.
use vstd::prelude::*;
use core::ops::Range;
use crate::faces::Direction;
use crate::bits::bit;
use crate::voxel_storage::{VoxelStorage, total_count};

verus! {

/// The chunks with coordinates in `xs × zs`. The chunk at `[cx, cz]` has index
/// `(cx - xs.start) * depth + (cz - zs.start)` in `ground` and in `water`, where
/// `depth` is the length of `zs`.
pub struct Chunks {
    pub xs: Range<i8>,
    pub zs: Range<i8>,
    pub ground: Vec<VoxelStorage>,
    pub water: Vec<VoxelStorage>,
}

/// Number of values in a range; none where it ends before it starts.
pub open spec fn span(r: Range<i8>) -> int {
    if r.start <= r.end {
        r.end - r.start
    } else {
        0
    }
}

/// Number of values in a range.
pub fn range_len(r: &Range<i8>) -> (n: usize)
    ensures
        n == span(*r),
        n <= 255,
{
    if r.start <= r.end {
        (r.end as i16 - r.start as i16) as usize
    } else {
        0
    }
}

/// Height at which the water layer of a new world lies.
pub const WATER_LEVEL: u64 = 62;

/// Number of filled heights of a ground column for a height sample: the sample,
/// clamped into `1..=64`.
pub open spec fn clamp_height(h: u8) -> u64 {
    if h < 1 {
        1
    } else if h > 64 {
        64
    } else {
        h as u64
    }
}

/// The column whose heights `0..n` are filled, for `n <= 64`.
pub open spec fn fill_below(n: u64) -> u64 {
    if n >= 64 {
        0xffff_ffff_ffff_ffffu64
    } else {
        ((1u64 << n) - 1) as u64
    }
}

/// The ground column for a height sample.
pub fn ground_pillar(h: u8) -> (r: u64)
    ensures
        r == fill_below(clamp_height(h)),
        forall|j: u64| j < 64 ==> bit(r, j) == (j < clamp_height(h)),
{
    let n: u64 = if h < 1 {
        1
    } else if h > 64 {
        64
    } else {
        h as u64
    };
    if n == 64 {
        assert forall|j: u64| j < 64 implies bit(0xffff_ffff_ffff_ffffu64, j) by {
            crate::bits::lemma_bit_max(j);
        }
        0xffff_ffff_ffff_ffff
    } else {
        assert(1u64 << n >= 1) by (bit_vector)
            requires
                n < 64,
        ;
        let r = (1u64 << n) - 1;
        assert forall|j: u64| j < 64 implies bit(r, j) == (j < n) by {
            assert((((1u64 << n) - 1) as u64 >> j) & 1u64 == 1u64 <==> j < n) by (bit_vector)
                requires
                    1 <= n < 64,
                    j < 64,
            ;
        }
        r
    }
}

/// The world coordinates `(x, z)` of column `i` of chunk `k`, in a world over
/// `xs × zs`.
pub open spec fn column_origin(xs: Range<i8>, zs: Range<i8>, k: int, i: int) -> (int, int) {
    ((xs.start + k / span(zs)) * 64 + i % 64, (zs.start + k % span(zs)) * 64 + i / 64)
}

/// `col` is the ground column for a sample that `height` may give at `(x, z)`.
pub open spec fn sampled<F: Fn(i32, i32) -> u8>(height: F, x: i32, z: i32, col: u64) -> bool {
    exists|h: u8| height.ensures((x, z), h) && col == fill_below(clamp_height(h))
}

/// The columns of each storage of a layer.
pub open spec fn layer(v: Seq<VoxelStorage>) -> Seq<Seq<u64>> {
    v.map_values(|s: VoxelStorage| s.raw@)
}

/// Number of filled voxels in the first `n` chunks of a layer.
pub open spec fn chunks_count(cols: Seq<Seq<u64>>, n: nat) -> nat
    decreases n,
{
    if n == 0 {
        0
    } else {
        chunks_count(cols, (n - 1) as nat) + total_count(cols[n - 1])
    }
}

/// Number of filled voxels in a layer.
pub open spec fn layer_total(cols: Seq<Seq<u64>>) -> nat {
    chunks_count(cols, cols.len())
}

/// Replacing one chunk changes the count by the difference of the two chunks' counts.
pub proof fn lemma_chunks_count_update(cols: Seq<Seq<u64>>, i: int, v: Seq<u64>, n: nat)
    requires
        0 <= i < cols.len(),
        n <= cols.len(),
    ensures
        chunks_count(cols.update(i, v), n) == if i < n {
            chunks_count(cols, n) - total_count(cols[i]) + total_count(v)
        } else {
            chunks_count(cols, n) as int
        },
    decreases n,
{
    if n > 0 {
        lemma_chunks_count_update(cols, i, v, (n - 1) as nat);
        if i < n - 1 {
            lemma_chunks_prefix_ge(cols, i, (n - 1) as nat);
        }
    }
}

/// The first `n` chunks hold at least what one of them holds.
proof fn lemma_chunks_prefix_ge(cols: Seq<Seq<u64>>, i: int, n: nat)
    requires
        0 <= i < n,
        n <= cols.len(),
    ensures
        chunks_count(cols, n) >= total_count(cols[i]),
    decreases n,
{
    if i < n - 1 {
        lemma_chunks_prefix_ge(cols, i, (n - 1) as nat);
    }
}

/// Two layers whose chunks hold the same amounts hold the same amount.
pub proof fn lemma_chunks_count_pointwise(a: Seq<Seq<u64>>, b: Seq<Seq<u64>>, n: nat)
    requires
        n <= a.len(),
        n <= b.len(),
        forall|k: int| 0 <= k < n ==> total_count(#[trigger] a[k]) == total_count(b[k]),
    ensures
        chunks_count(a, n) == chunks_count(b, n),
    decreases n,
{
    if n > 0 {
        lemma_chunks_count_pointwise(a, b, (n - 1) as nat);
    }
}

/// On a grid of `width × depth` chunks, the index of the chunk next to chunk `k` in
/// direction `d`, unless chunk `k` lies on the world's edge on that side.
pub open spec fn chunk_neighbor(width: int, depth: int, k: int, d: Direction) -> Option<int> {
    let a = k / depth + d.offset().0;
    let b = k % depth + d.offset().1;
    if 0 <= a < width && 0 <= b < depth {
        Some(a * depth + b)
    } else {
        None
    }
}

/// The index of the chunk next to chunk `k` in direction `d`, if there is one.
pub fn neighbor_chunk(width: usize, depth: usize, k: usize, d: Direction) -> (r: Option<usize>)
    requires
        k < width * depth,
        width * depth <= usize::MAX,
    ensures
        r == match chunk_neighbor(width as int, depth as int, k as int, d) {
            Some(c) => Some(c as usize),
            None => None::<usize>,
        },
        r matches Some(c) ==> c < width * depth && c != k,
{
    assert(depth > 0) by (nonlinear_arith)
        requires
            k < width * depth,
    ;
    let a = k / depth;
    let b = k % depth;
    assert(a < width && a * depth + b == k) by (nonlinear_arith)
        requires
            k < width * depth,
            depth > 0,
            a == k / depth,
            b == k % depth,
    ;
    let r = match d {
        Direction::Left => if a == 0 {
            None
        } else {
            assert((a - 1) * depth + b < k) by (nonlinear_arith)
                requires
                    a >= 1,
                    depth > 0,
                    a * depth + b == k,
            ;
            Some((a - 1) * depth + b)
        },
        Direction::Right => if a + 1 == width {
            None
        } else {
            assert((a + 1) * depth + b < width * depth) by (nonlinear_arith)
                requires
                    a + 1 < width,
                    b < depth,
            ;
            Some((a + 1) * depth + b)
        },
        Direction::Front => if b == 0 {
            None
        } else {
            Some(a * depth + (b - 1))
        },
        Direction::Back => if b + 1 == depth {
            None
        } else {
            Some(a * depth + (b + 1))
        },
    };
    proof {
        if let Some(c) = r {
            assert(c < width * depth && c != k) by (nonlinear_arith)
                requires
                    a < width,
                    b < depth,
                    a * depth + b == k,
                    k < width * depth,
                    (c == (a - 1) * depth + b && a >= 1) || (c == (a + 1) * depth + b && a + 1
                        < width) || (c == a * depth + (b - 1) && b >= 1) || (c == a * depth + (b
                        + 1) && b + 1 < depth),
            ;
        }
    }
    r
}

impl Chunks {
    /// Number of chunk coordinates along `x`.
    pub open spec fn width(&self) -> int {
        span(self.xs)
    }

    /// Number of chunk coordinates along `z`.
    pub open spec fn depth(&self) -> int {
        span(self.zs)
    }


    /// Both layers hold one well-formed storage per chunk coordinate of `xs × zs`.
    pub open spec fn wf(&self) -> bool {
        &&& self.ground@.len() == self.width() * self.depth()
        &&& self.water@.len() == self.width() * self.depth()
        &&& forall|k: int| 0 <= k < self.ground@.len() ==> (#[trigger] self.ground@[k]).wf()
        &&& forall|k: int| 0 <= k < self.water@.len() ==> (#[trigger] self.water@[k]).wf()
    }

    /// The index of the chunk at `key`, if `key` lies in `xs × zs`.
    pub open spec fn spec_index_of(&self, key: [i8; 2]) -> Option<int> {
        if self.xs.start <= key[0] < self.xs.end && self.zs.start <= key[1] < self.zs.end {
            Some((key[0] - self.xs.start) * self.depth() + (key[1] - self.zs.start))
        } else {
            None
        }
    }

    /// Number of filled voxels of the water layer.
    pub open spec fn water_amount(&self) -> nat {
        layer_total(layer(self.water@))
    }

    /// The index of the chunk at `key` in `ground` and `water`, if `key` lies in
    /// `xs × zs`.
    pub fn index_of(&self, key: [i8; 2]) -> (r: Option<usize>)
        requires
            self.wf(),
        ensures
            r is Some <==> self.spec_index_of(key) is Some,
            r matches Some(i) ==> i == self.spec_index_of(key)->0 && i < self.ground@.len(),
    {
        if self.xs.start <= key[0] && key[0] < self.xs.end && self.zs.start <= key[1] && key[1]
            < self.zs.end {
            let a = (key[0] as i16 - self.xs.start as i16) as usize;
            let b = (key[1] as i16 - self.zs.start as i16) as usize;
            let depth = range_len(&self.zs);
            let n = self.ground.len();
            assert(a * depth + b < n) by (nonlinear_arith)
                requires
                    a < self.width(),
                    b < depth,
                    depth == self.depth(),
                    n == self.width() * self.depth(),
            ;
            Some(a * depth + b)
        } else {
            None
        }
    }

    /// The ground storage of the chunk at `key`, if `key` lies in `xs × zs`.
    pub fn ground_at(&self, key: [i8; 2]) -> (r: Option<&VoxelStorage>)
        requires
            self.wf(),
        ensures
            r is Some <==> self.spec_index_of(key) is Some,
            r matches Some(s) ==> *s == self.ground@[self.spec_index_of(key)->0],
    {
        match self.index_of(key) {
            Some(i) => Some(&self.ground[i]),
            None => None,
        }
    }

    /// The water storage of the chunk at `key`, if `key` lies in `xs × zs`.
    pub fn water_at(&self, key: [i8; 2]) -> (r: Option<&VoxelStorage>)
        requires
            self.wf(),
        ensures
            r is Some <==> self.spec_index_of(key) is Some,
            r matches Some(s) ==> *s == self.water@[self.spec_index_of(key)->0],
    {
        match self.index_of(key) {
            Some(i) => Some(&self.water[i]),
            None => None,
        }
    }

    /// Number of filled voxels of the water layer.
    pub fn water_count(&self) -> (r: u64)
        requires
            self.wf(),
        ensures
            r == self.water_amount(),
    {
        let mut total: u64 = 0;
        let mut k: usize = 0;
        assert(self.water@.len() <= 65536) by (nonlinear_arith)
            requires
                0 <= self.width() <= 255,
                0 <= self.depth() <= 255,
                self.water@.len() == self.width() * self.depth(),
        ;
        while k < self.water.len()
            invariant
                self.wf(),
                k <= self.water@.len(),
                self.water@.len() <= 65536,
                total == chunks_count(layer(self.water@), k as nat),
                total <= k * 262144,
            decreases self.water@.len() - k,
        {
            proof {
                crate::voxel_storage::lemma_total_count_bounded(self.water@[k as int].raw@);
                assert(total + 262144 <= (k + 1) * 262144 <= 65536 * 262144) by (nonlinear_arith)
                    requires
                        total <= k * 262144,
                        k < 65536,
                ;
            }
            total = total + self.water[k].count();
            k = k + 1;
        }
        total
    }

    /// Generates the world over `xs × zs`. The ground column at world coordinates
    /// `(x, z)` is filled from height 0 up to `height(x, z)`, clamped into `1..=64`
    /// filled heights. The water layer holds one unit at height 62 in each column
    /// whose ground leaves that height empty.
    pub fn gen<F: Fn(i32, i32) -> u8>(xs: Range<i8>, zs: Range<i8>, height: F) -> (r: Chunks)
        requires
            forall|x: i32, z: i32| height.requires((x, z)),
        ensures
            r.wf(),
            r.xs == xs,
            r.zs == zs,
            forall|k: int, i: int|
                0 <= k < r.ground@.len() && 0 <= i < 4096 ==> sampled(
                    height,
                    column_origin(xs, zs, k, i).0 as i32,
                    column_origin(xs, zs, k, i).1 as i32,
                    #[trigger] r.ground@[k].raw@[i],
                ),
            forall|k: int, i: int|
                0 <= k < r.water@.len() && 0 <= i < 4096 ==> #[trigger] r.water@[k].raw@[i] == (1u64
                    << WATER_LEVEL) & !r.ground@[k].raw@[i],
    {
        let width = range_len(&xs);
        let depth = range_len(&zs);
        assert(width * depth <= 65025) by (nonlinear_arith)
            requires
                width <= 255,
                depth <= 255,
        ;
        let n = width * depth;
        let mut ground: Vec<VoxelStorage> = Vec::new();
        let mut water: Vec<VoxelStorage> = Vec::new();
        let mut k: usize = 0;
        while k < n
            invariant
                forall|x: i32, z: i32| height.requires((x, z)),
                width == span(xs),
                depth == span(zs),
                n == width * depth,
                width <= 255,
                depth <= 255,
                k <= n,
                ground@.len() == k,
                water@.len() == k,
                forall|j: int| 0 <= j < k ==> (#[trigger] ground@[j]).wf(),
                forall|j: int| 0 <= j < k ==> (#[trigger] water@[j]).wf(),
                forall|j: int, i: int|
                    0 <= j < k && 0 <= i < 4096 ==> sampled(
                        height,
                        column_origin(xs, zs, j, i).0 as i32,
                        column_origin(xs, zs, j, i).1 as i32,
                        #[trigger] ground@[j].raw@[i],
                    ),
                forall|j: int, i: int|
                    0 <= j < k && 0 <= i < 4096 ==> #[trigger] water@[j].raw@[i] == (1u64
                        << WATER_LEVEL) & !ground@[j].raw@[i],
            decreases n - k,
        {
            assert(k / depth < width && k % depth < depth) by (nonlinear_arith)
                requires
                    k < width * depth,
            ;
            let cx = xs.start as i32 + (k / depth) as i32;
            let cz = zs.start as i32 + (k % depth) as i32;
            let g = ground_chunk(&height, cx, cz);
            let mut w = water_level_chunk();
            w.subtract(&g);
            let ghost ground_before = ground@;
            let ghost water_before = water@;
            ground.push(g);
            water.push(w);
            assert forall|j: int, i: int|
                0 <= j < k + 1 && 0 <= i < 4096 implies sampled(
                    height,
                    column_origin(xs, zs, j, i).0 as i32,
                    column_origin(xs, zs, j, i).1 as i32,
                    #[trigger] ground@[j].raw@[i],
                ) by {
                if j < k {
                    assert(ground@[j] == ground_before[j]);
                } else {
                    assert(column_origin(xs, zs, j, i) == (cx * 64 + i % 64, cz * 64 + i / 64));
                    assert(ground@[j].raw@[i] == g.raw@[i]);
                }
            }
            assert forall|j: int, i: int|
                0 <= j < k + 1 && 0 <= i < 4096 implies #[trigger] water@[j].raw@[i] == (1u64
                    << WATER_LEVEL) & !ground@[j].raw@[i] by {
                if j < k {
                    assert(ground@[j] == ground_before[j]);
                    assert(water@[j] == water_before[j]);
                }
            }
            k = k + 1;
        }
        Chunks { xs, zs, ground, water }
    }
}

/// The ground of the chunk at `(cx, cz)`, sampled from `height`.
fn ground_chunk<F: Fn(i32, i32) -> u8>(height: &F, cx: i32, cz: i32) -> (r: VoxelStorage)
    requires
        forall|x: i32, z: i32| height.requires((x, z)),
        -128 <= cx < 128,
        -128 <= cz < 128,
    ensures
        r.wf(),
        forall|i: int|
            0 <= i < 4096 ==> sampled(
                *height,
                (cx * 64 + i % 64) as i32,
                (cz * 64 + i / 64) as i32,
                #[trigger] r.raw@[i],
            ),
{
    let mut raw: Vec<u64> = Vec::new();
    let mut i: usize = 0;
    while i < crate::position::COLUMNS
        invariant
            forall|x: i32, z: i32| height.requires((x, z)),
            -128 <= cx < 128,
            -128 <= cz < 128,
            i <= 4096,
            raw@.len() == i,
            forall|j: int|
                0 <= j < i ==> sampled(
                    *height,
                    (cx * 64 + j % 64) as i32,
                    (cz * 64 + j / 64) as i32,
                    #[trigger] raw@[j],
                ),
        decreases 4096 - i,
    {
        let x = cx * 64 + (i % 64) as i32;
        let z = cz * 64 + (i / 64) as i32;
        let h = height(x, z);
        let ghost before = raw@;
        raw.push(ground_pillar(h));
        assert(sampled(*height, x, z, raw@[i as int]));
        assert forall|j: int|
            0 <= j < i + 1 implies sampled(
                *height,
                (cx * 64 + j % 64) as i32,
                (cz * 64 + j / 64) as i32,
                #[trigger] raw@[j],
            ) by {
            if j < i {
                assert(raw@[j] == before[j]);
            } else {
                assert(((cx * 64 + j % 64) as i32, (cz * 64 + j / 64) as i32) == (x, z));
            }
        }
        i = i + 1;
    }
    VoxelStorage { raw }
}

/// A chunk whose every column holds one unit at the water level.
fn water_level_chunk() -> (r: VoxelStorage)
    ensures
        r.wf(),
        forall|i: int| 0 <= i < 4096 ==> #[trigger] r.raw@[i] == 1u64 << WATER_LEVEL,
{
    let mut raw: Vec<u64> = Vec::new();
    let mut i: usize = 0;
    while i < crate::position::COLUMNS
        invariant
            i <= 4096,
            raw@.len() == i,
            forall|j: int| 0 <= j < i ==> #[trigger] raw@[j] == 1u64 << WATER_LEVEL,
        decreases 4096 - i,
    {
        raw.push(1u64 << WATER_LEVEL);
        i = i + 1;
    }
    VoxelStorage { raw }
}

} // verus!
