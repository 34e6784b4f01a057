//! Mapping from continuous pointer coordinates to discrete grid cells.
//!
//! The canvas is a rectangle of `grid_w * grid_h` square cells of side
//! `cell_size`, whose top-left corner sits at the board origin. A pointer
//! position strictly inside that rectangle (border excluded on every side)
//! is attributed to the cell it falls in, by flooring the division of the
//! local offset by the cell side; everything else is "outside".

use vstd::prelude::*;

verus! {

use crate::{BOARD_HEIGHT, BOARD_WIDTH};

/// Horizontal position of the board's top-left corner in window coordinates.
pub const BOARD_ORIGIN_X: i32 = 50;

/// Vertical position of the board's top-left corner in window coordinates.
pub const BOARD_ORIGIN_Y: i32 = 50;

/// Side length of one drawn cell in window coordinates.
pub const CELL_SIZE: i32 = 18;

/// A pair of cell indices on the board, `0 <= x < grid_w`, `0 <= y < grid_h`.
#[derive(Clone, Copy, Debug, PartialEq, Eq, Structural)]
pub struct GridCell {
    pub x: usize,
    pub y: usize,
}

/// The pointer at `(px, py)` lies strictly inside the canvas rectangle with
/// origin `(ox, oy)`, cell side `cell`, and `gw * gh` cells; positions on the
/// rectangle border itself count as outside.
pub open spec fn strictly_inside(
    px: int,
    py: int,
    ox: int,
    oy: int,
    cell: int,
    gw: int,
    gh: int,
) -> bool {
    &&& 0 < px - ox < cell * gw
    &&& 0 < py - oy < cell * gh
}

/// Maps a pointer position to the grid cell it falls in, or `None` when the
/// pointer is on or outside the canvas border.
pub fn map_to_cell(
    px: i32,
    py: i32,
    ox: i32,
    oy: i32,
    cell_size: i32,
    grid_w: i32,
    grid_h: i32,
) -> (r: Option<GridCell>)
    requires
        1 <= cell_size,
        1 <= grid_w,
        1 <= grid_h,
        cell_size * grid_w <= i32::MAX,
        cell_size * grid_h <= i32::MAX,
        i32::MIN <= px - ox <= i32::MAX,
        i32::MIN <= py - oy <= i32::MAX,
    ensures
        r is Some <==> strictly_inside(
            px as int,
            py as int,
            ox as int,
            oy as int,
            cell_size as int,
            grid_w as int,
            grid_h as int,
        ),
        r matches Some(c) ==> {
            &&& c.x == (px - ox) / (cell_size as int)
            &&& c.y == (py - oy) / (cell_size as int)
            &&& c.x < grid_w
            &&& c.y < grid_h
        },
{
    let lx: i32 = px - ox;
    let ly: i32 = py - oy;
    if lx <= 0 || ly <= 0 {
        return None;
    }
    if lx >= cell_size * grid_w || ly >= cell_size * grid_h {
        return None;
    }
    let cx: usize = (lx as usize) / (cell_size as usize);
    let cy: usize = (ly as usize) / (cell_size as usize);
    proof {
        vstd::arithmetic::div_mod::lemma_multiply_divide_lt(lx as int, cell_size as int, grid_w as int);
        vstd::arithmetic::div_mod::lemma_multiply_divide_lt(ly as int, cell_size as int, grid_h as int);
        vstd::arithmetic::div_mod::lemma_div_pos_is_pos(lx as int, cell_size as int);
        vstd::arithmetic::div_mod::lemma_div_pos_is_pos(ly as int, cell_size as int);
    }
    Some(GridCell { x: cx, y: cy })
}

/// The pointer lies strictly inside the fixed 28x28 canvas drawn at origin
/// `(50, 50)` with cells of side `18`; the border is outside.
pub fn within_board(mouse_x: i32, mouse_y: i32) -> (r: bool)
    ensures
        r == strictly_inside(
            mouse_x as int,
            mouse_y as int,
            BOARD_ORIGIN_X as int,
            BOARD_ORIGIN_Y as int,
            CELL_SIZE as int,
            BOARD_WIDTH as int,
            BOARD_HEIGHT as int,
        ),
{
    mouse_x > BOARD_ORIGIN_X && mouse_x < BOARD_ORIGIN_X + CELL_SIZE * (BOARD_WIDTH as i32)
        && mouse_y > BOARD_ORIGIN_Y && mouse_y < BOARD_ORIGIN_Y + CELL_SIZE * (BOARD_HEIGHT as i32)
}

/// Maps a pointer position to a cell of the fixed 28x28 canvas, or `None`
/// when the pointer is on or outside the canvas border.
pub fn get_board_pixel(mouse_x: i32, mouse_y: i32) -> (r: Option<(usize, usize)>)
    ensures
        r is Some <==> strictly_inside(
            mouse_x as int,
            mouse_y as int,
            BOARD_ORIGIN_X as int,
            BOARD_ORIGIN_Y as int,
            CELL_SIZE as int,
            BOARD_WIDTH as int,
            BOARD_HEIGHT as int,
        ),
        r matches Some((x, y)) ==> {
            &&& x == (mouse_x - BOARD_ORIGIN_X) / (CELL_SIZE as int)
            &&& y == (mouse_y - BOARD_ORIGIN_Y) / (CELL_SIZE as int)
            &&& x < BOARD_WIDTH
            &&& y < BOARD_HEIGHT
        },
{
    if !within_board(mouse_x, mouse_y) {
        return None;
    }
    let r = map_to_cell(
        mouse_x,
        mouse_y,
        BOARD_ORIGIN_X,
        BOARD_ORIGIN_Y,
        CELL_SIZE,
        BOARD_WIDTH as i32,
        BOARD_HEIGHT as i32,
    );
    match r {
        Some(c) => Some((c.x, c.y)),
        None => None,
    }
}

} // verus!
