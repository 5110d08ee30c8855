//! Text layout for the terminal viewport.
//!
//! Maps the linear letter stream onto a bounded textbox: where the box
//! starts, how wide it is, and at which cell a given character renders once
//! lines wrap.

use vstd::prelude::*;

verus! {

/// Base X padding of the drawn interface, in cells.
pub const PAD_X: u16 = 4;

/// Base Y padding of the drawn interface, in rows.
pub const PAD_Y: u16 = 1;

/// Where the textbox starts: horizontally centered around the phrase's
/// rendered width but clamped to at least `PAD_X` from the left edge, and a
/// fixed two rows below the top padding, reserving a mode line and a status
/// line. A phrase length beyond `u16` range enters truncated, as it does in
/// the cell arithmetic of a terminal.
pub open spec fn spec_text_origin(screen: (u16, u16), phrase_len: nat) -> (u16, u16) {
    let centered = screen.0 as int / 2 - (phrase_len as u16) as int / 2 - PAD_X;
    ((if centered < PAD_X as int {
        PAD_X
    } else {
        centered as u16
    }), (PAD_Y + 2) as u16)
}

/// The textbox area, `(line_width, line_count)`: the full viewport width
/// minus both paddings, and the configured number of lines.
pub open spec fn spec_text_area(screen: (u16, u16), line_limit: u16) -> (u16, u16)
    recommends
        screen.0 >= 2 * PAD_X,
{
    ((screen.0 - 2 * PAD_X) as u16, line_limit)
}

/// Column and row at which character number `pos` renders, relative to the
/// textbox origin, wrapping every `size.0` characters.
pub fn move_to_wrap(pos: usize, size: (u16, u16)) -> (cell: (u16, u16))
    requires
        size.0 > 0,
        pos as int / size.0 as int <= u16::MAX,
    ensures
        cell.0 == pos as int % size.0 as int,
        cell.1 == pos as int / size.0 as int,
{
    ((pos % size.0 as usize) as u16, (pos / size.0 as usize) as u16)
}

} // verus!
