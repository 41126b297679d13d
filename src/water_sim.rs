//! The water automaton: a settling pass that drops water one height, then a flow
//! pass that moves water one column in a direction picked by the step counter.
use vstd::prelude::*;
use crate::bits::{
    bit, count_below, popcount, lemma_bit_and, lemma_bit_or, lemma_bit_single, lemma_count_add_bit,
    lemma_count_high_clear, lemma_test_bit, lemma_move_keeps_count,
};
use crate::faces::Direction;
use crate::position::column_index;
use crate::voxel_storage::{VoxelStorage, total_count, lemma_columns_count_update};
use crate::chunks::{
    Chunks, chunk_neighbor, layer, range_len, layer_total, neighbor_chunk, lemma_chunks_count_update,
    lemma_chunks_count_pointwise,
};
use crate::position::COLUMNS;

verus! {

/// The settling pass on one column, after the heights `1..k` are done. Heights go up
/// one at a time: the water at height `o` drops to `o - 1` when the ground has no
/// block there and no water has been placed there yet in this pass, and stays at
/// `o` otherwise. Water at height 0 stays.
pub open spec fn settle_upto(ground: u64, water: u64, k: nat) -> u64
    decreases k,
{
    if k <= 1 {
        water & 1
    } else {
        let placed = settle_upto(ground, water, (k - 1) as nat);
        let o = (k - 1) as u64;
        if !bit(water, o) {
            placed
        } else if !bit(ground, (o - 1) as u64) && !bit(placed, (o - 1) as u64) {
            placed | (1u64 << ((o - 1) as u64))
        } else {
            placed | (1u64 << o)
        }
    }
}

/// The water of one column after the settling pass.
pub open spec fn settle(ground: u64, water: u64) -> u64 {
    settle_upto(ground, water, 64)
}

/// The settling pass places one unit for each unit of water below `k`, and none at
/// `k` or above.
pub proof fn lemma_settle_upto_count(ground: u64, water: u64, k: nat)
    requires
        1 <= k <= 64,
    ensures
        popcount(settle_upto(ground, water, k)) == count_below(water, k),
        forall|j: u64| k <= j < 64 ==> !bit(#[trigger] settle_upto(ground, water, k), j),
    decreases k,
{
    let placed = settle_upto(ground, water, k);
    if k == 1 {
        assert forall|j: u64| j < 64 implies bit(water & 1, j) == (j == 0 && bit(water, 0)) by {
            lemma_bit_and(water, 1u64, j);
            lemma_bit_single(0, j);
            assert(1u64 << 0u64 == 1u64) by (bit_vector);
        }
        lemma_count_high_clear(water & 1, 1, 64);
        assert(bit(water & 1, 0) == bit(water, 0));
        crate::bits::lemma_count_ext(water & 1, water, 1);
    } else {
        let prev = settle_upto(ground, water, (k - 1) as nat);
        lemma_settle_upto_count(ground, water, (k - 1) as nat);
        let o = (k - 1) as u64;
        if bit(water, o) {
            let p = if !bit(ground, (o - 1) as u64) && !bit(prev, (o - 1) as u64) {
                (o - 1) as u64
            } else {
                o
            };
            assert(placed == prev | (1u64 << p));
            lemma_count_add_bit(prev, p);
            assert forall|j: u64| k <= j < 64 implies !bit(placed, j) by {
                lemma_bit_or(prev, 1u64 << p, j);
                lemma_bit_single(p, j);
            }
        }
    }
}

/// The settling pass keeps the amount of water in a column.
pub proof fn lemma_settle_keeps_count(ground: u64, water: u64)
    ensures
        popcount(settle(ground, water)) == popcount(water),
{
    lemma_settle_upto_count(ground, water, 64);
}

/// The settling pass on one column.
pub fn settle_column(ground: u64, water: u64) -> (r: u64)
    ensures
        r == settle(ground, water),
{
    let mut placed: u64 = water & 1;
    let mut offset: u64 = 1;
    while offset < 64
        invariant
            1 <= offset <= 64,
            placed == settle_upto(ground, water, offset as nat),
        decreases 64 - offset,
    {
        let above = 1u64 << offset;
        let below = 1u64 << (offset - 1);
        proof {
            lemma_test_bit(water, offset);
            lemma_test_bit(ground, (offset - 1) as u64);
            lemma_test_bit(placed, (offset - 1) as u64);
        }
        if water & above != 0 {
            if ground & below == 0 && placed & below == 0 {
                placed = placed | below;
            } else {
                placed = placed | above;
            }
        }
        offset = offset + 1;
    }
    placed
}

/// The water of a column holding `src_water` that moves onto a column with ground
/// `dst_ground` and water `dst_water`: every height where the source has water and
/// the destination has neither ground nor water.
pub open spec fn flow(src_water: u64, dst_ground: u64, dst_water: u64) -> u64 {
    !dst_ground & !dst_water & src_water
}

/// Position `i` of line `l` for a sweep towards `d`, as `(x, z)`. Position 0 lies on
/// the chunk's edge on the side that `d` points to; the line runs back from there.
pub open spec fn line_column(d: Direction, l: int, i: int) -> (int, int) {
    match d {
        Direction::Left => (i, l),
        Direction::Right => (63 - i, l),
        Direction::Front => (l, i),
        Direction::Back => (l, 63 - i),
    }
}

/// Index in a chunk of position `i` of line `l` for a sweep towards `d`.
pub open spec fn line_index(d: Direction, l: int, i: int) -> int {
    column_index(line_column(d, l, i).0, line_column(d, l, i).1)
}

/// The columns `water` of a chunk with ground `ground`, after the flow from column
/// `src` onto column `dst`.
pub open spec fn move_water(ground: Seq<u64>, water: Seq<u64>, src: int, dst: int) -> Seq<u64> {
    let f = flow(water[src], ground[dst], water[dst]);
    water.update(dst, water[dst] | f).update(src, water[src] & !f)
}

/// A chunk's water after the first `n` moves of the sweep towards `d`. Move `m` takes
/// position `m / 64 + 1` of line `m % 64` onto the position before it. Each position
/// gives its water on before it receives any from the position behind it, so no
/// unit moves twice in one sweep.
pub open spec fn sweep_upto(ground: Seq<u64>, water: Seq<u64>, d: Direction, n: nat) -> Seq<u64>
    decreases n,
{
    if n == 0 {
        water
    } else {
        let m = n - 1;
        let i = m / 64 + 1;
        let l = m % 64;
        move_water(
            ground,
            sweep_upto(ground, water, d, (n - 1) as nat),
            line_index(d, l, i),
            line_index(d, l, i - 1),
        )
    }
}

/// Number of moves in a chunk's sweep.
pub const SWEEP_MOVES: usize = 4032;

/// A chunk's water after its whole sweep towards `d`.
pub open spec fn sweep(ground: Seq<u64>, water: Seq<u64>, d: Direction) -> Seq<u64> {
    sweep_upto(ground, water, d, 4032)
}

/// Positions of a line lie inside the chunk, and two neighbouring positions differ.
pub proof fn lemma_line_index(d: Direction, l: int, i: int)
    requires
        0 <= l < 64,
        0 <= i < 64,
    ensures
        0 <= line_index(d, l, i) < 4096,
        0 < i ==> line_index(d, l, i) != line_index(d, l, i - 1),
{
}

/// A move between two columns keeps the amount of water.
pub proof fn lemma_move_keeps_total(ground: Seq<u64>, water: Seq<u64>, src: int, dst: int)
    requires
        0 <= src < water.len(),
        0 <= dst < water.len(),
        0 <= dst < ground.len(),
        src != dst,
    ensures
        total_count(move_water(ground, water, src, dst)) == total_count(water),
        move_water(ground, water, src, dst).len() == water.len(),
{
    let f = flow(water[src], ground[dst], water[dst]);
    let (a, b, g) = (water[src], water[dst], ground[dst]);
    assert(f & !a == 0u64 && f & b == 0u64) by (bit_vector)
        requires
            f == !g & !b & a,
    ;
    lemma_move_keeps_count(a, b, f);
    let w1 = water.update(dst, b | f);
    lemma_columns_count_update(water, dst, b | f, water.len());
    lemma_columns_count_update(w1, src, a & !f, w1.len());
}

/// A chunk's sweep keeps the amount of water.
pub proof fn lemma_sweep_upto_keeps_total(ground: Seq<u64>, water: Seq<u64>, d: Direction, n: nat)
    requires
        ground.len() == 4096,
        water.len() == 4096,
        n <= 4032,
    ensures
        total_count(sweep_upto(ground, water, d, n)) == total_count(water),
        sweep_upto(ground, water, d, n).len() == 4096,
    decreases n,
{
    if n > 0 {
        let m = n - 1;
        lemma_sweep_upto_keeps_total(ground, water, d, (n - 1) as nat);
        lemma_line_index(d, m % 64, m / 64 + 1);
        lemma_line_index(d, m % 64, m / 64);
        lemma_move_keeps_total(
            ground,
            sweep_upto(ground, water, d, (n - 1) as nat),
            line_index(d, m % 64, m / 64 + 1),
            line_index(d, m % 64, m / 64),
        );
    }
}

/// Position `i` of line `l` for a sweep towards `d`, as `[x, z]`.
fn line_pillar(d: Direction, l: u8, i: u8) -> (r: [u8; 2])
    requires
        l < 64,
        i < 64,
    ensures
        r[0] < 64,
        r[1] < 64,
        (r[0] as int, r[1] as int) == line_column(d, l as int, i as int),
{
    match d {
        Direction::Left => [i, l],
        Direction::Right => [63 - i, l],
        Direction::Front => [l, i],
        Direction::Back => [l, 63 - i],
    }
}

/// The flow between two columns of one chunk.
fn flow_between(ground: &VoxelStorage, water: &mut VoxelStorage, src: [u8; 2], dst: [u8; 2])
    requires
        ground.wf(),
        old(water).wf(),
        src[0] < 64,
        src[1] < 64,
        dst[0] < 64,
        dst[1] < 64,
    ensures
        final(water).wf(),
        final(water).raw@ == move_water(
            ground.raw@,
            old(water).raw@,
            column_index(src[0] as int, src[1] as int),
            column_index(dst[0] as int, dst[1] as int),
        ),
{
    let dst_ground = ground.get_pillar(dst);
    let dst_water = water.get_pillar(dst);
    let src_water = water.get_pillar(src);
    let free = !dst_ground & !dst_water;
    let moved = free & src_water;
    water.set_pillar(dst, dst_water | moved);
    water.set_pillar(src, src_water & !moved);
}

/// Sweeps a chunk's water one column towards `d`.
fn sweep_chunk(ground: &VoxelStorage, water: &mut VoxelStorage, d: Direction)
    requires
        ground.wf(),
        old(water).wf(),
    ensures
        final(water).wf(),
        final(water).raw@ == sweep(ground.raw@, old(water).raw@, d),
{
    let mut m: usize = 0;
    while m < SWEEP_MOVES
        invariant
            m <= 4032,
            ground.wf(),
            water.wf(),
            water.raw@ == sweep_upto(ground.raw@, old(water).raw@, d, m as nat),
        decreases 4032 - m,
    {
        let i = (m / 64 + 1) as u8;
        let l = (m % 64) as u8;
        let src = line_pillar(d, l, i);
        let dst = line_pillar(d, l, i - 1);
        flow_between(ground, water, src, dst);
        m = m + 1;
    }
}

/// The direction of the flow pass for a step counter: the counter modulo 8 picks
/// `Left` for 0 and 1, `Right` for 2 and 3, `Front` for 4 and 5, `Back` for 6 and 7.
pub open spec fn flow_direction(step_counter: u8) -> Direction {
    let c = step_counter % 8;
    if c < 2 {
        Direction::Left
    } else if c < 4 {
        Direction::Right
    } else if c < 6 {
        Direction::Front
    } else {
        Direction::Back
    }
}

/// A chunk's water after the settling pass of every column.
pub open spec fn settle_chunk(ground: Seq<u64>, water: Seq<u64>) -> Seq<u64> {
    Seq::new(water.len(), |i: int| settle(ground[i], water[i]))
}

/// A chunk's water after the settling pass and its own sweep towards `d`.
pub open spec fn local_step(ground: Seq<u64>, water: Seq<u64>, d: Direction) -> Seq<u64> {
    sweep(ground, settle_chunk(ground, water), d)
}

/// A layer of water `w` over the ground `g`, after the flow from column `src` of
/// chunk `k` onto column `dst` of chunk `c`.
pub open spec fn move_across(
    g: Seq<Seq<u64>>,
    w: Seq<Seq<u64>>,
    k: int,
    c: int,
    src: int,
    dst: int,
) -> Seq<Seq<u64>> {
    let f = flow(w[k][src], g[c][dst], w[c][dst]);
    w.update(c, w[c].update(dst, w[c][dst] | f)).update(k, w[k].update(src, w[k][src] & !f))
}

/// A layer of water after the first `n` moves across chunk edges towards `d`, on a
/// grid of `width × depth` chunks. Move `m` takes position 0 of line `m % 64` of
/// chunk `m / 64` onto position 63 of the same line of the next chunk towards `d`,
/// where there is one.
pub open spec fn edges_upto(
    g: Seq<Seq<u64>>,
    w: Seq<Seq<u64>>,
    d: Direction,
    width: int,
    depth: int,
    n: nat,
) -> Seq<Seq<u64>>
    decreases n,
{
    if n == 0 {
        w
    } else {
        let m = n - 1;
        let prev = edges_upto(g, w, d, width, depth, (n - 1) as nat);
        match chunk_neighbor(width, depth, m / 64, d) {
            Some(c) => move_across(
                g,
                prev,
                m / 64,
                c,
                line_index(d, m % 64, 0),
                line_index(d, m % 64, 63),
            ),
            None => prev,
        }
    }
}

/// One step of the water automaton on a grid of `width × depth` chunks with ground
/// `g` and water `w`: each chunk settles and sweeps on its own, then water moves
/// across the chunk edges that face the flow direction.
pub open spec fn step_water(
    g: Seq<Seq<u64>>,
    w: Seq<Seq<u64>>,
    width: int,
    depth: int,
    step_counter: u8,
) -> Seq<Seq<u64>> {
    let d = flow_direction(step_counter);
    let local = Seq::new(w.len(), |k: int| local_step(g[k], w[k], d));
    edges_upto(g, local, d, width, depth, (w.len() * 64) as nat)
}

/// Every chunk of the layer has one column per position.
pub open spec fn chunk_layer(w: Seq<Seq<u64>>) -> bool {
    forall|k: int| 0 <= k < w.len() ==> (#[trigger] w[k]).len() == 4096
}

/// The settling pass keeps the amount of water in the first `n` columns.
proof fn lemma_settle_chunk_count(ground: Seq<u64>, water: Seq<u64>, n: nat)
    requires
        n <= water.len(),
    ensures
        crate::voxel_storage::columns_count(settle_chunk(ground, water), n)
            == crate::voxel_storage::columns_count(water, n),
    decreases n,
{
    if n > 0 {
        lemma_settle_chunk_count(ground, water, (n - 1) as nat);
        lemma_settle_keeps_count(ground[n - 1], water[n - 1]);
    }
}

/// A chunk's settling pass and sweep keep its amount of water.
pub proof fn lemma_local_step_keeps_total(ground: Seq<u64>, water: Seq<u64>, d: Direction)
    requires
        ground.len() == 4096,
        water.len() == 4096,
    ensures
        total_count(local_step(ground, water, d)) == total_count(water),
        local_step(ground, water, d).len() == 4096,
{
    lemma_settle_chunk_count(ground, water, 4096);
    lemma_sweep_upto_keeps_total(ground, settle_chunk(ground, water), d, 4032);
}

/// A move across a chunk edge keeps the amount of water in the layer.
pub proof fn lemma_move_across_keeps_total(
    g: Seq<Seq<u64>>,
    w: Seq<Seq<u64>>,
    k: int,
    c: int,
    src: int,
    dst: int,
)
    requires
        chunk_layer(w),
        chunk_layer(g),
        g.len() == w.len(),
        0 <= k < w.len(),
        0 <= c < w.len(),
        k != c,
        0 <= src < 4096,
        0 <= dst < 4096,
    ensures
        layer_total(move_across(g, w, k, c, src, dst)) == layer_total(w),
        move_across(g, w, k, c, src, dst).len() == w.len(),
        chunk_layer(move_across(g, w, k, c, src, dst)),
{
    let (a, b, gd) = (w[k][src], w[c][dst], g[c][dst]);
    let f = flow(a, gd, b);
    assert(f & !a == 0u64 && f & b == 0u64) by (bit_vector)
        requires
            f == !gd & !b & a,
    ;
    lemma_move_keeps_count(a, b, f);
    let wc = w[c].update(dst, b | f);
    let wk = w[k].update(src, a & !f);
    lemma_columns_count_update(w[c], dst, b | f, 4096);
    lemma_columns_count_update(w[k], src, a & !f, 4096);
    let w1 = w.update(c, wc);
    lemma_chunks_count_update(w, c, wc, w.len());
    lemma_chunks_count_update(w1, k, wk, w1.len());
    assert(w1[k] == w[k]);
    let r = move_across(g, w, k, c, src, dst);
    assert forall|j: int| 0 <= j < r.len() implies (#[trigger] r[j]).len() == 4096 by {
        assert(w[j].len() == 4096);
    }
}

/// The moves across chunk edges keep the amount of water in the layer.
pub proof fn lemma_edges_upto_keeps_total(
    g: Seq<Seq<u64>>,
    w: Seq<Seq<u64>>,
    d: Direction,
    width: int,
    depth: int,
    n: nat,
)
    requires
        chunk_layer(w),
        chunk_layer(g),
        g.len() == w.len(),
        0 <= width,
        0 <= depth,
        w.len() == width * depth,
        n <= w.len() * 64,
    ensures
        layer_total(edges_upto(g, w, d, width, depth, n)) == layer_total(w),
        edges_upto(g, w, d, width, depth, n).len() == w.len(),
        chunk_layer(edges_upto(g, w, d, width, depth, n)),
    decreases n,
{
    if n > 0 {
        let m = n - 1;
        lemma_edges_upto_keeps_total(g, w, d, width, depth, (n - 1) as nat);
        let prev = edges_upto(g, w, d, width, depth, (n - 1) as nat);
        assert(0 <= m / 64 < w.len()) by (nonlinear_arith)
            requires
                0 <= m < w.len() * 64,
        ;
        if let Some(c) = chunk_neighbor(width, depth, m / 64, d) {
            lemma_chunk_neighbor(width, depth, m / 64, d);
            lemma_line_index(d, m % 64, 0);
            lemma_line_index(d, m % 64, 63);
            lemma_move_across_keeps_total(
                g,
                prev,
                m / 64,
                c,
                line_index(d, m % 64, 0),
                line_index(d, m % 64, 63),
            );
        }
    }
}

/// The neighbour of a chunk is another chunk of the grid.
pub proof fn lemma_chunk_neighbor(width: int, depth: int, k: int, d: Direction)
    requires
        0 <= width,
        0 <= depth,
        0 <= k < width * depth,
    ensures
        chunk_neighbor(width, depth, k, d) matches Some(c) ==> 0 <= c < width * depth && c != k,
{
    assert(depth > 0) by (nonlinear_arith)
        requires
            0 <= width,
            0 <= k < width * depth,
    ;
    let a = k / depth;
    let b = k % depth;
    assert(a * depth + b == k && 0 <= b < depth) by (nonlinear_arith)
        requires
            depth > 0,
            a == k / depth,
            b == k % depth,
    ;
    if let Some(c) = chunk_neighbor(width, depth, k, d) {
        let (a2, b2) = (a + d.offset().0, b + d.offset().1);
        assert(c == a2 * depth + b2);
        assert(0 <= c < width * depth) by (nonlinear_arith)
            requires
                0 <= a2 < width,
                0 <= b2 < depth,
                c == a2 * depth + b2,
        ;
        assert(c != k) by (nonlinear_arith)
            requires
                a * depth + b == k,
                c == a2 * depth + b2,
                0 <= b < depth,
                0 <= b2 < depth,
                a2 != a || b2 != b,
        ;
    }
}

/// One step of the automaton keeps the amount of water: each unit only moves.
pub proof fn lemma_step_keeps_water(
    g: Seq<Seq<u64>>,
    w: Seq<Seq<u64>>,
    width: int,
    depth: int,
    step_counter: u8,
)
    requires
        chunk_layer(w),
        chunk_layer(g),
        g.len() == w.len(),
        0 <= width,
        0 <= depth,
        w.len() == width * depth,
    ensures
        layer_total(step_water(g, w, width, depth, step_counter)) == layer_total(w),
        step_water(g, w, width, depth, step_counter).len() == w.len(),
        chunk_layer(step_water(g, w, width, depth, step_counter)),
{
    let d = flow_direction(step_counter);
    let local = Seq::new(w.len(), |k: int| local_step(g[k], w[k], d));
    assert forall|k: int| 0 <= k < w.len() implies total_count(#[trigger] local[k]) == total_count(
        w[k],
    ) && local[k].len() == 4096 by {
        lemma_local_step_keeps_total(g[k], w[k], d);
    }
    lemma_chunks_count_pointwise(local, w, w.len());
    lemma_edges_upto_keeps_total(g, local, d, width, depth, (w.len() * 64) as nat);
}

/// The direction of the flow pass for a step counter.
pub fn flow_direction_of(step_counter: u8) -> (d: Direction)
    ensures
        d == flow_direction(step_counter),
{
    let c = step_counter % 8;
    if c < 2 {
        Direction::Left
    } else if c < 4 {
        Direction::Right
    } else if c < 6 {
        Direction::Front
    } else {
        Direction::Back
    }
}

/// The settling pass on every column of a chunk.
fn settle_storage(ground: &VoxelStorage, water: &VoxelStorage) -> (r: VoxelStorage)
    requires
        ground.wf(),
        water.wf(),
    ensures
        r.wf(),
        r.raw@ == settle_chunk(ground.raw@, water.raw@),
{
    let mut raw: Vec<u64> = Vec::new();
    let mut i: usize = 0;
    while i < COLUMNS
        invariant
            i <= 4096,
            ground.wf(),
            water.wf(),
            raw@.len() == i,
            forall|j: int| 0 <= j < i ==> raw@[j] == settle(ground.raw@[j], water.raw@[j]),
        decreases 4096 - i,
    {
        raw.push(settle_column(ground.raw[i], water.raw[i]));
        i = i + 1;
    }
    assert(raw@ =~= settle_chunk(ground.raw@, water.raw@));
    VoxelStorage { raw }
}

/// A chunk's water after the settling pass and its own sweep towards `d`.
fn step_chunk(ground: &VoxelStorage, water: &VoxelStorage, d: Direction) -> (r: VoxelStorage)
    requires
        ground.wf(),
        water.wf(),
    ensures
        r.wf(),
        r.raw@ == local_step(ground.raw@, water.raw@, d),
{
    let mut r = settle_storage(ground, water);
    sweep_chunk(ground, &mut r, d);
    r
}

/// Every storage of the layer is well formed.
pub open spec fn storages_wf(v: Seq<VoxelStorage>) -> bool {
    forall|k: int| 0 <= k < v.len() ==> (#[trigger] v[k]).wf()
}

/// The flow from column `src` of chunk `k` onto column `dst` of chunk `c`.
fn flow_across(
    ground: &Vec<VoxelStorage>,
    water: &mut Vec<VoxelStorage>,
    k: usize,
    c: usize,
    src: [u8; 2],
    dst: [u8; 2],
)
    requires
        k != c,
        k < old(water)@.len(),
        c < old(water)@.len(),
        ground@.len() == old(water)@.len(),
        storages_wf(ground@),
        storages_wf(old(water)@),
        src[0] < 64,
        src[1] < 64,
        dst[0] < 64,
        dst[1] < 64,
    ensures
        final(water)@.len() == old(water)@.len(),
        storages_wf(final(water)@),
        layer(final(water)@) == move_across(
            layer(ground@),
            layer(old(water)@),
            k as int,
            c as int,
            column_index(src[0] as int, src[1] as int),
            column_index(dst[0] as int, dst[1] as int),
        ),
{
    let dst_ground = ground[c].get_pillar(dst);
    let dst_water = water[c].get_pillar(dst);
    let src_water = water[k].get_pillar(src);
    let free = !dst_ground & !dst_water;
    let moved = free & src_water;
    water[c].set_pillar(dst, dst_water | moved);
    water[k].set_pillar(src, src_water & !moved);
    assert(layer(water@) =~= move_across(
        layer(ground@),
        layer(old(water)@),
        k as int,
        c as int,
        column_index(src[0] as int, src[1] as int),
        column_index(dst[0] as int, dst[1] as int),
    ));
}

/// The moves across every chunk edge that faces `d`, on a grid of `width × depth`
/// chunks.
fn flow_across_chunks(
    ground: &Vec<VoxelStorage>,
    water: &mut Vec<VoxelStorage>,
    d: Direction,
    width: usize,
    depth: usize,
)
    requires
        ground@.len() == old(water)@.len(),
        old(water)@.len() == width * depth,
        width <= 255,
        depth <= 255,
        storages_wf(ground@),
        storages_wf(old(water)@),
    ensures
        final(water)@.len() == old(water)@.len(),
        storages_wf(final(water)@),
        layer(final(water)@) == edges_upto(
            layer(ground@),
            layer(old(water)@),
            d,
            width as int,
            depth as int,
            (old(water)@.len() * 64) as nat,
        ),
{
    let n = water.len();
    let mut m: usize = 0;
    assert(n * 64 <= 65025 * 64) by (nonlinear_arith)
        requires
            n == width * depth,
            width <= 255,
            depth <= 255,
    ;
    while m < n * 64
        invariant
            n == old(water)@.len(),
            n == width * depth,
            n * 64 <= 65025 * 64,
            m <= n * 64,
            ground@.len() == n,
            water@.len() == n,
            storages_wf(ground@),
            storages_wf(water@),
            layer(water@) == edges_upto(
                layer(ground@),
                layer(old(water)@),
                d,
                width as int,
                depth as int,
                m as nat,
            ),
        decreases n * 64 - m,
    {
        let k = m / 64;
        let l = (m % 64) as u8;
        assert(k < n) by (nonlinear_arith)
            requires
                m < n * 64,
                k == m / 64,
        ;
        proof {
            lemma_chunk_neighbor(width as int, depth as int, k as int, d);
        }
        match neighbor_chunk(width, depth, k, d) {
            Some(c) => {
                let src = line_pillar(d, l, 0);
                let dst = line_pillar(d, l, 63);
                flow_across(ground, water, k, c, src, dst);
            },
            None => {},
        }
        m = m + 1;
    }
}

/// One step of the water automaton: every chunk's water settles one height and
/// sweeps one column towards the direction that `step_counter` picks, then water
/// moves across the chunk edges that face that direction. The amount of water is
/// kept.
pub fn simulate_water(chunks: &mut Chunks, step_counter: u8)
    requires
        old(chunks).wf(),
    ensures
        final(chunks).wf(),
        final(chunks).xs == old(chunks).xs,
        final(chunks).zs == old(chunks).zs,
        final(chunks).ground@ == old(chunks).ground@,
        layer(final(chunks).water@) == step_water(
            layer(old(chunks).ground@),
            layer(old(chunks).water@),
            old(chunks).width(),
            old(chunks).depth(),
            step_counter,
        ),
        final(chunks).water_amount() == old(chunks).water_amount(),
{
    let d = flow_direction_of(step_counter);
    let n = chunks.water.len();
    let mut new_water: Vec<VoxelStorage> = Vec::new();
    let mut k: usize = 0;
    while k < n
        invariant
            chunks.wf(),
            n == chunks.water@.len(),
            k <= n,
            new_water@.len() == k,
            storages_wf(new_water@),
            forall|j: int|
                0 <= j < k ==> (#[trigger] new_water@[j]).raw@ == local_step(
                    chunks.ground@[j].raw@,
                    chunks.water@[j].raw@,
                    d,
                ),
        decreases n - k,
    {
        new_water.push(step_chunk(&chunks.ground[k], &chunks.water[k], d));
        k = k + 1;
    }
    let ghost g = layer(chunks.ground@);
    let ghost w = layer(chunks.water@);
    assert(layer(new_water@) =~= Seq::new(w.len(), |k: int| local_step(g[k], w[k], d)));
    let width = range_len(&chunks.xs);
    let depth = range_len(&chunks.zs);
    flow_across_chunks(&chunks.ground, &mut new_water, d, width, depth);
    chunks.water = new_water;
    proof {
        assert forall|k: int| 0 <= k < w.len() implies (#[trigger] w[k]).len() == 4096 by {
            assert(old(chunks).water@[k].wf());
        }
        assert forall|k: int| 0 <= k < g.len() implies (#[trigger] g[k]).len() == 4096 by {
            assert(old(chunks).ground@[k].wf());
        }
        lemma_step_keeps_water(g, w, width as int, depth as int, step_counter);
    }
}

/// The water after `n` steps whose counters run up from `first`, wrapping at 256.
pub open spec fn run_water(
    g: Seq<Seq<u64>>,
    w: Seq<Seq<u64>>,
    width: int,
    depth: int,
    first: u8,
    n: nat,
) -> Seq<Seq<u64>>
    decreases n,
{
    if n == 0 {
        w
    } else {
        let before = run_water(g, w, width, depth, first, (n - 1) as nat);
        step_water(g, before, width, depth, ((first + n - 1) % 256) as u8)
    }
}

/// Any number of consecutive steps keeps the amount of water.
pub proof fn lemma_run_keeps_water(
    g: Seq<Seq<u64>>,
    w: Seq<Seq<u64>>,
    width: int,
    depth: int,
    first: u8,
    n: nat,
)
    requires
        chunk_layer(w),
        chunk_layer(g),
        g.len() == w.len(),
        0 <= width,
        0 <= depth,
        w.len() == width * depth,
    ensures
        layer_total(run_water(g, w, width, depth, first, n)) == layer_total(w),
        run_water(g, w, width, depth, first, n).len() == w.len(),
        chunk_layer(run_water(g, w, width, depth, first, n)),
    decreases n,
{
    if n > 0 {
        lemma_run_keeps_water(g, w, width, depth, first, (n - 1) as nat);
        lemma_step_keeps_water(
            g,
            run_water(g, w, width, depth, first, (n - 1) as nat),
            width,
            depth,
            ((first + n - 1) % 256) as u8,
        );
    }
}

} // verus!
