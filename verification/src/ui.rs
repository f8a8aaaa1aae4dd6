use vstd::prelude::*;
use vstd::string::*;

use crate::app::{spec_label, SortKey};
use crate::layout::{sat_sub_u16, Rect};

verus! {

/// The area inside a panel's one-cell border.
pub open spec fn spec_inner_area(area: Rect) -> Rect {
    Rect {
        x: (area.x + 1) as u16,
        y: (area.y + 1) as u16,
        width: sat_sub_u16(area.width, 2),
        height: sat_sub_u16(area.height, 2),
    }
}

pub fn inner_area(area: Rect) -> (r: Rect)
    requires
        area.x < u16::MAX,
        area.y < u16::MAX,
    ensures
        r == spec_inner_area(area),
{
    Rect {
        x: area.x + 1,
        y: area.y + 1,
        width: area.width.saturating_sub(2),
        height: area.height.saturating_sub(2),
    }
}

/// The height of the row that holds the network and disks panels: two lines
/// per disk plus four, no more than what is left above the fixed rows and no
/// more than ten, but at least six.
pub open spec fn spec_middle_row_height(disks: nat, area_height: u16) -> u16 {
    let wanted: int = ((disks % 65536) * 2 + 4) as int;
    let avail = sat_sub_u16(area_height, 16);
    let h = if wanted < avail { wanted } else { avail as int };
    let h = if h < 10 { h } else { 10 };
    (if h > 6 { h } else { 6 }) as u16
}

pub fn middle_row_height(disks: usize, area_height: u16) -> (r: u16)
    requires
        (disks % 65536) * 2 + 4 <= u16::MAX,
    ensures
        r == spec_middle_row_height(disks as nat, area_height),
{
    let avail = area_height.saturating_sub(16);
    let wanted = ((disks % 65536) as u16) * 2 + 4;
    let h = if wanted < avail { wanted } else { avail };
    let h = if h < 10 { h } else { 10 };
    if h > 6 { h } else { 6 }
}

/// How many core bars fit on a line of the CPU panel (at least one).
pub open spec fn spec_core_bars_per_line(width: u16) -> usize {
    let n = sat_sub_u16(width, 2) / 24;
    (if n < 1 { 1 } else { n }) as usize
}

pub fn core_bars_per_line(width: u16) -> (r: usize)
    ensures
        r == spec_core_bars_per_line(width),
{
    let n = width.saturating_sub(2) / 24;
    (if n < 1 { 1 } else { n }) as usize
}

/// The width of a disk's usage bar: what its labels leave of the line,
/// held within 4..=40 cells.
pub open spec fn spec_disk_bar_len(width: u16, name: nat, mount: nat, kind: nat, fs: nat) -> usize {
    let fixed = name + 1 + mount + 1 + kind + 3 + fs + 3 + 8;
    let free = width - fixed;
    (if free < 4 { 4 } else if free > 40 { 40 } else { free }) as usize
}

pub fn disk_bar_len(width: u16, name: &str, mount: &str, kind: &str, fs: &str) -> (r: usize)
    requires
        name@.len() + mount@.len() + kind@.len() + fs@.len() + 16 <= isize::MAX,
    ensures
        r == spec_disk_bar_len(
            width,
            name@.len(),
            mount@.len(),
            kind@.len(),
            fs@.len(),
        ),
{
    let fixed = name.unicode_len() + 1 + mount.unicode_len() + 1 + kind.unicode_len() + 3
        + fs.unicode_len() + 3 + 8;
    let free = width as isize - fixed as isize;
    (if free < 4 {
        4
    } else if free > 40 {
        40
    } else {
        free
    }) as usize
}

/// The rectangle of the kill confirmation: up to 56 cells wide, eight high,
/// centred in `area`.
pub open spec fn spec_confirm_rect(area: Rect) -> Rect {
    let w = if area.width < 56 { area.width } else { 56 };
    Rect {
        x: (area.x + sat_sub_u16(area.width, w) / 2) as u16,
        y: (area.y + sat_sub_u16(area.height, 8) / 2) as u16,
        width: w,
        height: 8,
    }
}

pub fn confirm_rect(area: Rect) -> (r: Rect)
    requires
        area.x + sat_sub_u16(area.width, if area.width < 56 { area.width } else { 56 }) / 2
            <= u16::MAX,
        area.y + sat_sub_u16(area.height, 8) / 2 <= u16::MAX,
    ensures
        r == spec_confirm_rect(area),
{
    let w = if area.width < 56 { area.width } else { 56 };
    let h: u16 = 8;
    Rect {
        x: area.x + area.width.saturating_sub(w) / 2,
        y: area.y + area.height.saturating_sub(h) / 2,
        width: w,
        height: h,
    }
}

/// The process table's title: the sort key, then an arrow for the direction.
pub open spec fn spec_table_title(sort: SortKey, desc: bool) -> Seq<char> {
    seq![' ', 'P', 'r', 'o', 'c', 'e', 's', 's', 'e', 's', ' ', ' ', '·', ' ', ' ', 's', 'o', 'r', 't', 'e', 'd', ' ', 'b', 'y', ' ']
        + spec_label(sort) + seq![' ', if desc { '↓' } else { '↑' }]
}

pub fn table_title(sort: SortKey, desc: bool) -> (r: String)
    ensures
        r@ == spec_table_title(sort, desc),
{
    let head = " Processes  ·  sorted by ";
    let arrow = if desc { " ↓" } else { " ↑" };
    proof {
        reveal_strlit(" Processes  ·  sorted by ");
        reveal_strlit(" ↓");
        reveal_strlit(" ↑");
    }
    let r = String::from_str(head).concat(sort.label()).concat(arrow);
    assert(r@ =~= spec_table_title(sort, desc));
    r
}

} // verus!
