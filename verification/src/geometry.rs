//! Areas of the terminal.

use vstd::prelude::*;

verus! {

/// A rectangle of terminal cells.
#[derive(Debug, Clone, Copy, PartialEq, Eq, Structural)]
pub struct Area {
    pub x: u16,
    pub y: u16,
    pub width: u16,
    pub height: u16,
}

/// `percent` hundredths of a width, where the product is cut off at what 16 bits
/// hold.
pub open spec fn share(width: u16, percent: u16) -> int {
    (if width * percent > u16::MAX {
        u16::MAX as int
    } else {
        width * percent
    }) / 100
}

/// Half of what `part` leaves of `whole`.
pub open spec fn margin(whole: int, part: int) -> int {
    if part >= whole {
        0
    } else {
        (whole - part) / 2
    }
}

/// The area in the middle of `area` that is `w_pct` hundredths of it wide and
/// `h_lines` high, as far as there is room.
pub fn centered_rect(w_pct: u16, h_lines: u16, area: Area) -> (r: Area)
    requires
        area.x + margin(area.width as int, share(area.width, w_pct)) <= u16::MAX,
        area.y + margin(area.height as int, h_lines as int) <= u16::MAX,
    ensures
        r.width == share(area.width, w_pct),
        r.height == if h_lines < area.height { h_lines } else { area.height },
        r.x == area.x + margin(area.width as int, r.width as int),
        r.y == area.y + margin(area.height as int, h_lines as int),
{
    let full: u16 = area.width;
    assert(full * w_pct <= u16::MAX * u16::MAX) by (nonlinear_arith)
        requires
            full <= u16::MAX,
            w_pct <= u16::MAX,
    ;
    assert(full * w_pct >= 0) by (nonlinear_arith);
    let wide: u32 = full as u32 * w_pct as u32;
    let width: u16 = if wide > u16::MAX as u32 {
        u16::MAX / 100
    } else {
        (wide / 100) as u16
    };
    let left: u16 = if width >= area.width {
        0
    } else {
        (area.width - width) / 2
    };
    let above: u16 = if h_lines >= area.height {
        0
    } else {
        (area.height - h_lines) / 2
    };
    let height: u16 = if h_lines < area.height {
        h_lines
    } else {
        area.height
    };
    Area { x: area.x + left, y: area.y + above, width, height }
}

/// The share of a width that is at most a hundred hundredths is no wider than
/// it, so that the area in the middle lies within the whole, with the same room
/// on both sides, to a cell.
pub proof fn law_centered_lies_within(area: Area, w_pct: u16, h_lines: u16)
    requires
        w_pct <= 100,
    ensures
        ({
            let width = share(area.width, w_pct);
            let height = if h_lines < area.height {
                h_lines as int
            } else {
                area.height as int
            };
            let left = margin(area.width as int, width);
            let above = margin(area.height as int, h_lines as int);
            &&& 0 <= width <= area.width
            &&& left + width <= area.width
            &&& above + height <= area.height
            &&& 0 <= (area.width - width - left) - left <= 1
            &&& 0 <= (area.height - height - above) - above <= 1
        }),
{
    let width = area.width;
    assert(width * w_pct <= width * 100) by (nonlinear_arith)
        requires
            w_pct <= 100,
            width >= 0,
    ;
    assert(width * w_pct >= 0) by (nonlinear_arith)
        requires
            w_pct >= 0,
            width >= 0,
    ;
}

} // verus!
