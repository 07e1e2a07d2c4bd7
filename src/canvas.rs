//! Arithmetic of the magnified canvas: where the pixels of a cell's block
//! lie, and which block a pixel belongs to.
use vstd::prelude::*;

use vstd::arithmetic::div_mod::{
    lemma_fundamental_div_mod, lemma_fundamental_div_mod_converse, lemma_multiply_divide_lt,
};

verus! {

/// Row of the canvas that pixel `p` lies on.
pub open spec fn pixel_row(p: int, w: nat, cs: nat) -> int {
    p / ((w * cs) as int)
}

/// Column of the canvas that pixel `p` lies on.
pub open spec fn pixel_col(p: int, w: nat, cs: nat) -> int {
    p % ((w * cs) as int)
}

/// The pixel at offset `(dx, dy)` inside the block of cell `(x, y)` has
/// that block's cell and offset as its coordinates, and lies on the canvas.
pub proof fn lemma_block_pixel(x: int, y: int, dx: int, dy: int, w: nat, h: nat, cs: nat)
    requires
        0 <= x < w,
        0 <= y < h,
        0 <= dx < cs,
        0 <= dy < cs,
    ensures
        0 <= (y * cs + dy) * (w * cs) + x * cs + dx < (w * cs) * (h * cs),
        pixel_row((y * cs + dy) * (w * cs) + x * cs + dx, w, cs) == y * cs + dy,
        pixel_col((y * cs + dy) * (w * cs) + x * cs + dx, w, cs) == x * cs + dx,
        (y * cs + dy) / (cs as int) == y,
        (y * cs + dy) % (cs as int) == dy,
        (x * cs + dx) / (cs as int) == x,
        (x * cs + dx) % (cs as int) == dx,
{
    let cw = (w * cs) as int;
    let px = x * cs + dx;
    let py = y * cs + dy;
    assert(0 <= px < cw) by (nonlinear_arith)
        requires px == x * cs + dx, cw == w * cs, 0 <= x < w, 0 <= dx < cs;
    assert(0 <= py < h * cs) by (nonlinear_arith)
        requires py == y * cs + dy, 0 <= y < h, 0 <= dy < cs;
    assert(0 <= py * cw + px < cw * (h * cs)) by (nonlinear_arith)
        requires 0 <= px < cw, 0 <= py < h * cs;
    assert(cw * (h * cs) == (w * cs) * (h * cs));
    lemma_fundamental_div_mod_converse(py * cw + px, cw, py, px);
    lemma_fundamental_div_mod_converse(py, cs as int, y, dy);
    lemma_fundamental_div_mod_converse(px, cs as int, x, dx);
}

/// Every pixel is determined by its cell's coordinates and its offset inside
/// the cell's block; every pixel of the canvas lies in the block of a cell
/// of the grid.
pub proof fn lemma_pixel_split(p: int, w: nat, h: nat, cs: nat)
    requires
        w >= 1,
        cs >= 1,
        0 <= p < (w * cs) * (h * cs),
    ensures
        p == (pixel_row(p, w, cs) / (cs as int) * cs + pixel_row(p, w, cs) % (cs as int)) * (w
            * cs) + pixel_col(p, w, cs) / (cs as int) * cs + pixel_col(p, w, cs) % (cs as int),
        0 <= pixel_row(p, w, cs) / (cs as int) < h,
        0 <= pixel_col(p, w, cs) / (cs as int) < w,
        0 <= pixel_row(p, w, cs) % (cs as int) < cs,
        0 <= pixel_col(p, w, cs) % (cs as int) < cs,
{
    let cw = (w * cs) as int;
    assert(cw >= 1) by (nonlinear_arith)
        requires cw == w * cs, w >= 1, cs >= 1;
    let r = pixel_row(p, w, cs);
    let c = pixel_col(p, w, cs);
    lemma_fundamental_div_mod(p, cw);
    lemma_fundamental_div_mod(r, cs as int);
    lemma_fundamental_div_mod(c, cs as int);
    assert(p == cw * r + c);
    assert(r * cw == cw * r) by (nonlinear_arith);
    assert(r / (cs as int) * cs == cs * (r / (cs as int))) by (nonlinear_arith);
    assert(c / (cs as int) * cs == cs * (c / (cs as int))) by (nonlinear_arith);
    assert(p >= 0 && cw > 0 ==> r >= 0) by (nonlinear_arith)
        requires r == p / cw;
    lemma_multiply_divide_lt(p, cw, (h * cs) as int);
    assert(cs * h == h * cs) by (nonlinear_arith);
    assert(cs * w == w * cs) by (nonlinear_arith);
    lemma_multiply_divide_lt(r, cs as int, h as int);
    assert(c < w * cs);
    lemma_multiply_divide_lt(c, cs as int, w as int);
}

} // verus!
