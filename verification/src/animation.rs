//! Frames of sprite-sheet animations.

use vstd::prelude::*;
use crate::rect::{Rect, RectView};

verus! {

/// The frame number reached after `start_time` ticks when each frame lasts
/// `frames` ticks, as the game stores it in an `i32`.
pub open spec fn anim_frame(start_time: u128, frames: i32) -> i32 {
    #[verifier::truncate] ((start_time / #[verifier::truncate] (frames as u128)) as i32)
}

/// The number of frames held by the first `j + 1` rows of `col` frames each.
pub open spec fn row_end(col: i32, j: int) -> int {
    col * (j + 1)
}

/// The first row, from `i` on and below `row`, that holds frame `x`; `row`
/// when there is none.
pub open spec fn frame_row(x: int, col: i32, row: int, i: int) -> int
    decreases row - i,
{
    if i >= row {
        row
    } else if x < row_end(col, i) {
        i
    } else {
        frame_row(x, col, row, i + 1)
    }
}

/// The cell of a sheet with `row` rows of `col` frames of side `size` that
/// shows the frame reached after `start_time` ticks of `frames` ticks each;
/// the top-left cell when the frame lies beyond the sheet.
pub open spec fn animation_cell(start_time: u128, frames: i32, row: i32, col: i32, size: u32) -> RectView {
    let x = anim_frame(start_time, frames) as int;
    let k = frame_row(x, col, row as int, 0);
    let s = (#[verifier::truncate] (size as i32)) as int;
    if k < row {
        RectView::from_args((x - k * col) * s, k * s, size as int, size as int)
    } else {
        RectView::from_args(0, 0, size as int, size as int)
    }
}

/// The computation of `animation_cell` stays within `i32`.
pub open spec fn animation_fits(start_time: u128, frames: i32, row: i32, col: i32, size: u32) -> bool {
    let x = anim_frame(start_time, frames) as int;
    let k = frame_row(x, col, row as int, 0);
    let s = (#[verifier::truncate] (size as i32)) as int;
    &&& forall|j: int|
        0 <= j <= k && j < row ==> i32::MIN <= #[trigger] row_end(col, j) <= i32::MAX
    &&& k < row ==> {
        &&& i32::MIN <= k * col <= i32::MAX
        &&& i32::MIN <= x - k * col <= i32::MAX
        &&& i32::MIN <= (x - k * col) * s <= i32::MAX
        &&& i32::MIN <= k * s <= i32::MAX
    }
}

proof fn lemma_frame_row_bounds(x: int, col: i32, row: int, i: int)
    requires
        0 <= i,
    ensures
        i <= row ==> i <= frame_row(x, col, row, i) <= row,
        i > row ==> frame_row(x, col, row, i) == row,
    decreases row - i,
{
    if i < row && !(x < row_end(col, i)) {
        lemma_frame_row_bounds(x, col, row, i + 1);
    }
}

proof fn lemma_frame_row_is_quotient(x: int, col: i32, row: int, i: int)
    requires
        col > 0,
        0 <= x,
        0 <= i <= x / (col as int),
        x / (col as int) < row,
    ensures
        frame_row(x, col, row, i) == x / (col as int),
    decreases x / (col as int) - i,
{
    let c = col as int;
    let q = x / c;
    assert(q * c <= x < (q + 1) * c) by (nonlinear_arith)
        requires
            c > 0,
            x >= 0,
            q == x / c,
    ;
    if x < row_end(col, i) {
        assert(i >= q) by (nonlinear_arith)
            requires
                x < c * (i + 1),
                q * c <= x,
                c > 0,
        ;
    } else {
        assert(i + 1 <= q) by (nonlinear_arith)
            requires
                x >= c * (i + 1),
                x < (q + 1) * c,
                c > 0,
        ;
        lemma_frame_row_is_quotient(x, col, row, i + 1);
    }
}

/// Frames are laid out row by row: on a sheet of `row` rows of `col` frames,
/// frame `x` shows the cell in row `x / col` and column `x % col`.
pub proof fn lemma_animation_row_major(start_time: u128, frames: i32, row: i32, col: i32, size: u32)
    requires
        col > 0,
        0 <= anim_frame(start_time, frames),
        anim_frame(start_time, frames) < row * col,
    ensures
        ({
            let x = anim_frame(start_time, frames) as int;
            let s = (#[verifier::truncate] (size as i32)) as int;
            animation_cell(start_time, frames, row, col, size) == RectView::from_args(
                (x % (col as int)) * s,
                (x / (col as int)) * s,
                size as int,
                size as int,
            )
        }),
{
    let x = anim_frame(start_time, frames) as int;
    let c = col as int;
    assert(x / c < row) by (nonlinear_arith)
        requires
            0 <= x < row * c,
            c > 0,
    ;
    lemma_frame_row_is_quotient(x, col, row as int, 0);
    assert(x - (x / c) * c == x % c) by (nonlinear_arith)
        requires
            c > 0,
    ;
}

/// The source cell of an animation frame: `start_time` ticks have passed,
/// each frame lasts `frames` ticks, and the sheet holds `row` rows of `col`
/// frames, each a square of side `size`.
pub fn display_animation(start_time: u128, frames: i32, row: i32, col: i32, size: u32) -> (r: Rect)
    requires
        frames != 0,
        animation_fits(start_time, frames, row, col, size),
    ensures
        r@ == animation_cell(start_time, frames, row, col, size),
{
    proof {
        assert(frames != 0 ==> frames as u128 != 0) by (bit_vector);
    }
    let x = #[verifier::truncate] ((start_time / #[verifier::truncate] (frames as u128)) as i32);
    let mut src_x: i32 = 0;
    let mut src_y: i32 = 0;
    let ghost k = frame_row(x as int, col, row as int, 0);
    proof {
        lemma_frame_row_bounds(x as int, col, row as int, 0);
    }
    let mut i: i32 = 0;
    while i < row
        invariant_except_break
            src_x == 0,
            src_y == 0,
        invariant
            0 <= i,
            row >= 0 ==> i <= row,
            x == anim_frame(start_time, frames),
            k == frame_row(x as int, col, row as int, 0),
            k == frame_row(x as int, col, row as int, i as int),
            row >= 0 ==> i <= k,
            animation_fits(start_time, frames, row, col, size),
        ensures
            (k < row && src_x == (x - k * col) * (#[verifier::truncate] (size as i32)) && src_y == k * (#[verifier::truncate] (size as i32))) || (
            k >= row && src_x == 0 && src_y == 0),
        decreases row - i,
    {
        proof {
            lemma_frame_row_bounds(x as int, col, row as int, i as int);
        }
        assert(i32::MIN <= row_end(col, i as int) <= i32::MAX);
        if x < col * (i + 1) {
            assert(k == i);
            src_x = (x - i * col) * #[verifier::truncate] (size as i32);
            src_y = i * #[verifier::truncate] (size as i32);
            break ;
        }
        i = i + 1;
        proof {
            lemma_frame_row_bounds(x as int, col, row as int, i as int);
        }
    }
    proof {
        lemma_frame_row_bounds(x as int, col, row as int, 0);
    }
    Rect::new(src_x as i32, src_y as i32, size, size)
}

} // verus!
