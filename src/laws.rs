//! Properties of the engine stated over its model and proved.
use vstd::prelude::*;

use vstd::arithmetic::div_mod::{
    lemma_fundamental_div_mod, lemma_fundamental_div_mod_converse, lemma_mod_bound,
};
use vstd::seq_lib::lemma_fold_left_permutation;

use crate::model::{dead_grid, grid_live, neighbor_offsets, next_age, row_live, wrap, Life};

verus! {

/// `n` ticks in a row, regardless of pause and tick interval.
pub open spec fn ticks(l: Life, n: nat) -> Life
    decreases n,
{
    if n == 0 {
        l
    } else {
        ticks(l, (n - 1) as nat).stepped()
    }
}

/// The state after a call to advance at each time of `times`, in order.
pub open spec fn run(l: Life, times: Seq<nat>) -> Life
    decreases times.len(),
{
    if times.len() == 0 {
        l
    } else {
        run(l, times.drop_last()).advanced(times.last())
    }
}

/// `a` and `b` agree on everything but their pixels.
pub open spec fn same_but_pixels(a: Life, b: Life) -> bool {
    a == (Life { pixels: a.pixels, ..b })
}

proof fn lemma_tally_bounded(l: Life, x: int, y: int, s: Seq<(int, int)>)
    ensures
        s.fold_left(0nat, l.tally(x, y)) <= s.len(),
    decreases s.len(),
{
    if s.len() > 0 {
        lemma_tally_bounded(l, x, y, s.drop_last());
    }
}

/// The neighbour count of a cell is at most 8, and summing its neighbours in
/// any order gives the same count.
pub proof fn lemma_neighbors_bounded_any_order(l: Life, x: int, y: int, order: Seq<(int, int)>)
    requires
        order.to_multiset() == neighbor_offsets().to_multiset(),
    ensures
        l.neighbors(x, y) <= 8,
        order.fold_left(0nat, l.tally(x, y)) == l.neighbors(x, y),
{
    lemma_tally_bounded(l, x, y, neighbor_offsets());
    let f = l.tally(x, y);
    assert(vstd::seq_lib::commutative_foldl(f));
    lemma_fold_left_permutation(order, neighbor_offsets(), f, 0nat);
}

/// Stamping wraps around the torus: each offset of the pattern, added to
/// the anchor, lands on a cell of the grid taken modulo its dimensions, and
/// that cell is live afterwards.
pub proof fn lemma_stamp_wraps(l: Life, offsets: Seq<(usize, usize)>, x: int, y: int, k: int)
    requires
        l.wf(),
        0 <= k < offsets.len(),
    ensures
        0 <= wrap(x + offsets[k].0, l.width) < l.width,
        0 <= wrap(y + offsets[k].1, l.height) < l.height,
        l.stamped(offsets, x, y).cells[wrap(y + offsets[k].1, l.height)][wrap(
            x + offsets[k].0,
            l.width,
        )] == 1,
{
    let c = wrap(x + offsets[k].0, l.width);
    let r = wrap(y + offsets[k].1, l.height);
    assert(l.marked(offsets, x, y, c, r));
}

/// The rule: after a tick a cell is live exactly when it was live with two
/// or three live neighbours, or dead with exactly three.
pub proof fn lemma_rule(l: Life, x: int, y: int)
    requires
        l.wf(),
        0 <= x < l.width,
        0 <= y < l.height,
    ensures
        (l.stepped().cells[y][x] > 0) == ((l.cells[y][x] > 0 && (l.neighbors(x, y) == 2
            || l.neighbors(x, y) == 3)) || (l.cells[y][x] == 0 && l.neighbors(x, y) == 3)),
{
}

proof fn lemma_row_dead(row: Seq<u8>)
    requires
        forall|i: int| 0 <= i < row.len() ==> row[i] == 0,
    ensures
        row_live(row) == 0,
    decreases row.len(),
{
    if row.len() > 0 {
        lemma_row_dead(row.drop_last());
    }
}

proof fn lemma_grid_dead(rows: Seq<Seq<u8>>)
    requires
        forall|y: int, i: int| 0 <= y < rows.len() && 0 <= i < rows[y].len() ==> rows[y][i] == 0,
    ensures
        grid_live(rows) == 0,
    decreases rows.len(),
{
    if rows.len() > 0 {
        lemma_grid_dead(rows.drop_last());
        lemma_row_dead(rows.last());
    }
}

/// After `clear` no cell is live and the generation is 0, whatever came before.
pub proof fn lemma_clear_empties(l: Life)
    ensures
        l.cleared().live_count() == 0,
        l.cleared().generation == 0,
{
    lemma_grid_dead(dead_grid(l.width, l.height));
}

/// Pausing once makes a call to advance change neither the grid nor the
/// generation; pausing twice leaves advance as it was.
pub proof fn lemma_pause(l: Life, now: nat)
    requires
        !l.paused,
    ensures
        l.toggled().advanced(now).cells == l.cells,
        l.toggled().advanced(now).generation == l.generation,
        l.toggled().toggled().advanced(now) == l.advanced(now),
{
    assert(l.toggled().toggled() == l);
}

/// Adding a cell off the grid changes nothing, so the live count stays.
pub proof fn lemma_add_off_grid(l: Life, x: int, y: int)
    requires
        x >= l.width || y >= l.height,
    ensures
        l.with_cell(x, y) == l,
        l.with_cell(x, y).live_count() == l.live_count(),
{
}

proof fn lemma_rendered_same(a: Life, b: Life)
    requires
        same_but_pixels(a, b),
    ensures
        a.rendered() == b.rendered(),
{
    assert(a.rendered().pixels =~= b.rendered().pixels);
}

proof fn lemma_advanced_same(a: Life, b: Life, now: nat)
    requires
        same_but_pixels(a, b),
    ensures
        same_but_pixels(a.advanced(now), b.advanced(now)),
{
    assert forall|x: int, y: int| a.neighbors(x, y) == b.neighbors(x, y) by {
        assert(a.tally(x, y) =~= b.tally(x, y));
    }
    assert(a.next_cells() =~~= b.next_cells());
}

/// Rendering is determined by the state: two engines that agree on all but
/// their pixels and are advanced at the same times render the same canvas.
pub proof fn lemma_render_deterministic(a: Life, b: Life, times: Seq<nat>)
    requires
        same_but_pixels(a, b),
    ensures
        run(a, times).rendered() == run(b, times).rendered(),
        same_but_pixels(run(a, times), run(b, times)),
    decreases times.len(),
{
    if times.len() > 0 {
        lemma_render_deterministic(a, b, times.drop_last());
        lemma_advanced_same(run(a, times.drop_last()), run(b, times.drop_last()), times.last());
    }
    lemma_rendered_same(run(a, times), run(b, times));
}

proof fn lemma_ticks_wf(l: Life, n: nat)
    requires
        l.wf(),
        l.generation + n <= usize::MAX,
    ensures
        ticks(l, n).wf(),
        ticks(l, n).width == l.width,
        ticks(l, n).height == l.height,
        ticks(l, n).aged == l.aged,
        ticks(l, n).generation == l.generation + n,
    decreases n,
{
    if n > 0 {
        lemma_ticks_wf(l, (n - 1) as nat);
    }
}

/// With ageing, a cell born at age 1 that then keeps two or three live
/// neighbours for `k` ticks has age `k + 1`, stopping at the largest `u8`.
pub proof fn lemma_aged_survivor(l: Life, x: int, y: int, k: nat)
    requires
        l.wf(),
        l.aged,
        0 <= x < l.width,
        0 <= y < l.height,
        l.cells[y][x] == 1,
        l.generation + k <= usize::MAX,
        forall|i: nat|
            i < k ==> (#[trigger] ticks(l, i).neighbors(x, y) == 2 || ticks(l, i).neighbors(x, y)
                == 3),
    ensures
        ticks(l, k).cells[y][x] == if k + 1 <= u8::MAX { (k + 1) as int } else { u8::MAX as int },
    decreases k,
{
    if k > 0 {
        let j = (k - 1) as nat;
        lemma_aged_survivor(l, x, y, j);
        lemma_ticks_wf(l, j);
        let prev = ticks(l, j);
        assert(prev.neighbors(x, y) == 2 || prev.neighbors(x, y) == 3);
        assert(ticks(l, k).cells[y][x] == next_age(prev.cells[y][x], prev.neighbors(x, y), true));
    }
}

/// The grid holds a 2x2 block with its top-left cell at `(x0, y0)`, around
/// the torus, and nothing else.
pub open spec fn is_block(l: Life, x0: int, y0: int) -> bool {
    forall|r: int, c: int|
        0 <= r < l.height && 0 <= c < l.width ==> #[trigger] l.cells[r][c] == if wrap(
            c - x0,
            l.width,
        ) < 2 && wrap(r - y0, l.height) < 2 {
            1u8
        } else {
            0u8
        }
}

/// Live neighbours of `(x, y)` among the first `k` offsets.
spec fn partial_count(l: Life, x: int, y: int, k: int) -> nat
    decreases k,
{
    if k <= 0 {
        0
    } else {
        let d = neighbor_offsets()[k - 1];
        partial_count(l, x, y, k - 1) + if l.live(x + d.0, y + d.1) { 1nat } else { 0nat }
    }
}

proof fn lemma_partial_count(l: Life, x: int, y: int, k: int)
    requires
        0 <= k <= 8,
    ensures
        neighbor_offsets().take(k).fold_left(0nat, l.tally(x, y)) == partial_count(l, x, y, k),
    decreases k,
{
    if k > 0 {
        lemma_partial_count(l, x, y, k - 1);
        assert(neighbor_offsets().take(k).drop_last() =~= neighbor_offsets().take(k - 1));
    }
}

spec fn bit(b: bool) -> nat {
    if b { 1 } else { 0 }
}

/// The neighbour count as the sum of its eight terms.
proof fn lemma_neighbors_spelled_out(l: Life, x: int, y: int)
    ensures
        l.neighbors(x, y) == bit(l.live(x - 1, y - 1)) + bit(l.live(x, y - 1)) + bit(
            l.live(x + 1, y - 1),
        ) + bit(l.live(x - 1, y)) + bit(l.live(x + 1, y)) + bit(l.live(x - 1, y + 1)) + bit(
            l.live(x, y + 1),
        ) + bit(l.live(x + 1, y + 1)),
{
    lemma_partial_count(l, x, y, 8);
    assert(neighbor_offsets().take(8) =~= neighbor_offsets());
    reveal_with_fuel(partial_count, 9);
}

/// On a ring of at least three places, the two-place strip starting at 0
/// covers at most two of `v - 1`, `v`, `v + 1`, and exactly two when it
/// covers `v`.
proof fn lemma_strip(v: int, n: int)
    requires
        n >= 3,
    ensures
        bit((v - 1) % n < 2) + bit(v % n < 2) + bit((v + 1) % n < 2) <= 2,
        v % n < 2 ==> bit((v - 1) % n < 2) + bit(v % n < 2) + bit((v + 1) % n < 2) == 2,
{
    lemma_fundamental_div_mod(v, n);
    lemma_mod_bound(v, n);
    let q = v / n;
    let u = v % n;
    assert(q * n == n * q) by (nonlinear_arith);
    assert((q - 1) * n == q * n - n) by (nonlinear_arith);
    assert((q + 1) * n == q * n + n) by (nonlinear_arith);
    if u == 0 {
        lemma_fundamental_div_mod_converse(v - 1, n, q - 1, n - 1);
    } else {
        lemma_fundamental_div_mod_converse(v - 1, n, q, u - 1);
    }
    if u == n - 1 {
        lemma_fundamental_div_mod_converse(v + 1, n, q + 1, 0);
    } else {
        lemma_fundamental_div_mod_converse(v + 1, n, q, u + 1);
    }
}

/// Taking a coordinate around the torus first does not change its place
/// relative to the anchor.
proof fn lemma_wrap_shift(t: int, a: int, n: int)
    requires
        n >= 1,
    ensures
        (t % n - a) % n == (t - a) % n,
{
    lemma_fundamental_div_mod(t, n);
    lemma_fundamental_div_mod(t - a, n);
    lemma_mod_bound(t - a, n);
    let q = t / n;
    let r = (t - a) % n;
    let p = (t - a) / n;
    assert((p - q) * n == n * p - n * q) by (nonlinear_arith);
    lemma_fundamental_div_mod_converse(t % n - a, n, (t - a) / n - q, r);
}

proof fn lemma_block_live(l: Life, x0: int, y0: int, a: int, b: int)
    requires
        l.wf(),
        is_block(l, x0, y0),
    ensures
        l.live(a, b) == ((a - x0) % (l.width as int) < 2 && (b - y0) % (l.height as int) < 2),
{
    let (w, h) = (l.width as int, l.height as int);
    lemma_wrap_shift(a, x0, w);
    lemma_wrap_shift(b, y0, h);
    assert(l.cells[b % h][a % w] == if wrap(a % w - x0, l.width) < 2 && wrap(
        b % h - y0,
        l.height,
    ) < 2 {
        1u8
    } else {
        0u8
    });
}

/// One tick leaves a lone block as it is.
proof fn lemma_block_step(l: Life, x0: int, y0: int)
    requires
        l.wf(),
        !l.aged,
        l.width >= 3,
        l.height >= 3,
        is_block(l, x0, y0),
    ensures
        l.next_cells() == l.cells,
{
    let (w, h) = (l.width as int, l.height as int);
    assert forall|y: int, x: int| 0 <= y < h && 0 <= x < w implies #[trigger] l.next_cells()[y][x]
        == l.cells[y][x] by {
        lemma_neighbors_spelled_out(l, x, y);
        lemma_block_live(l, x0, y0, x - 1, y - 1);
        lemma_block_live(l, x0, y0, x, y - 1);
        lemma_block_live(l, x0, y0, x + 1, y - 1);
        lemma_block_live(l, x0, y0, x - 1, y);
        lemma_block_live(l, x0, y0, x, y);
        lemma_block_live(l, x0, y0, x + 1, y);
        lemma_block_live(l, x0, y0, x - 1, y + 1);
        lemma_block_live(l, x0, y0, x, y + 1);
        lemma_block_live(l, x0, y0, x + 1, y + 1);
        lemma_strip(x - x0, w);
        lemma_strip(y - y0, h);
        assert(x - 1 - x0 == (x - x0) - 1 && x + 1 - x0 == (x - x0) + 1);
        assert(y - 1 - y0 == (y - y0) - 1 && y + 1 - y0 == (y - y0) + 1);
        assert(l.live(x, y) == (l.cells[y][x] > 0)) by {
            vstd::arithmetic::div_mod::lemma_small_mod(x as nat, w as nat);
            vstd::arithmetic::div_mod::lemma_small_mod(y as nat, h as nat);
        }
    }
    assert(l.next_cells() =~~= l.cells);
}

/// A lone 2x2 block is a still life: any number of ticks leaves the grid
/// unchanged while the generation counts up. (On a torus narrower or lower
/// than three cells the block touches itself and dies.)
pub proof fn lemma_block_still(l: Life, x0: int, y0: int, n: nat)
    requires
        l.wf(),
        !l.aged,
        l.width >= 3,
        l.height >= 3,
        is_block(l, x0, y0),
        l.generation + n <= usize::MAX,
    ensures
        ticks(l, n).cells == l.cells,
        ticks(l, n).generation == l.generation + n,
    decreases n,
{
    if n > 0 {
        let j = (n - 1) as nat;
        lemma_block_still(l, x0, y0, j);
        lemma_ticks_wf(l, j);
        let prev = ticks(l, j);
        assert(is_block(prev, x0, y0));
        lemma_block_step(prev, x0, y0);
    }
}

} // verus!
