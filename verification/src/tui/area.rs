//! Screen rectangles.
use vstd::prelude::*;

verus! {

/// A rectangle of terminal cells.
#[derive(Clone, Copy, Debug, PartialEq, Eq, Structural)]
pub struct Area {
    pub x: u16,
    pub y: u16,
    pub width: u16,
    pub height: u16,
}

/// `a - b`, or zero where `b > a` (`u16::saturating_sub`).
pub open spec fn sat_sub(a: int, b: int) -> int {
    if a > b {
        a - b
    } else {
        0
    }
}

/// A `width`-cell wide label placed at the right end of the first row of
/// `area`, where it fits.
pub fn right_aligned(area: Area, width: u16) -> (r: Option<Area>)
    requires
        area.x + area.width <= u16::MAX,
    ensures
        width <= area.width ==> r == Some(
            Area { x: (area.x + area.width - width) as u16, y: area.y, width, height: 1 },
        ),
        width > area.width ==> r is None,
{
    if width <= area.width {
        Some(Area { x: area.x + area.width - width, y: area.y, width, height: 1 })
    } else {
        None
    }
}

/// A rectangle of `percent_x` by `percent_y` percent of `area`, centred in it.
pub fn centered_rect(percent_x: u16, percent_y: u16, area: Area) -> (r: Area)
    requires
        area.width * percent_x <= u16::MAX,
        area.height * percent_y <= u16::MAX,
        area.x + area.width <= u16::MAX,
        area.y + area.height <= u16::MAX,
    ensures
        ({
            let w = area.width * percent_x / 100;
            let h = area.height * percent_y / 100;
            r == Area {
                x: (area.x + sat_sub(area.width as int, w) / 2) as u16,
                y: (area.y + sat_sub(area.height as int, h) / 2) as u16,
                width: (if w < area.width { w } else { area.width as int }) as u16,
                height: (if h < area.height { h } else { area.height as int }) as u16,
            }
        }),
{
    let popup_width = area.width * percent_x / 100;
    let popup_height = area.height * percent_y / 100;
    let x = area.x + (area.width.saturating_sub(popup_width)) / 2;
    let y = area.y + (area.height.saturating_sub(popup_height)) / 2;
    Area {
        x,
        y,
        width: if popup_width < area.width { popup_width } else { area.width },
        height: if popup_height < area.height { popup_height } else { area.height },
    }
}

} // verus!
