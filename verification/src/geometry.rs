use vstd::prelude::*;

verus! {

/// The axis along which a split pane is divided.
///
/// `Horizontal` stacks the two children on top of each other (it divides the
/// rows), `Vertical` places them side by side (it divides the columns).
#[derive(Clone, Copy, Debug, PartialEq, Eq, Structural)]
pub enum SplitDirection {
    Horizontal,
    Vertical,
}

/// One step of a path from the root of a pane tree to one of its nodes.
#[derive(Clone, Copy, Debug, PartialEq, Eq, Structural)]
pub enum PanePathStep {
    First,
    Second,
}

/// A rectangle of terminal cells: its origin and its size in columns and rows.
#[derive(Clone, Copy, Debug, PartialEq, Eq, Structural)]
pub struct PaneGeometry {
    pub x: u16,
    pub y: u16,
    pub cols: u16,
    pub rows: u16,
}

/// `a + b`, saturated at the largest `u16`.
pub open spec fn sat_add(a: u16, b: u16) -> u16 {
    if a + b > u16::MAX {
        u16::MAX
    } else {
        (a + b) as u16
    }
}

/// `a - b`, saturated at zero.
pub open spec fn sat_sub(a: u16, b: u16) -> u16 {
    if a >= b {
        (a - b) as u16
    } else {
        0
    }
}

/// `v` brought into the range `lo ..= hi` (for `lo <= hi`).
pub open spec fn clamp_int(v: int, lo: int, hi: int) -> int {
    if v < lo {
        lo
    } else if v > hi {
        hi
    } else {
        v
    }
}

impl PaneGeometry {
    /// Whether the 1-based global cell `(col, row)` lies inside this area.
    pub open spec fn holds_cell(self, col: u16, row: u16) -> bool {
        &&& sat_add(self.x, 1) <= col <= sat_add(self.x, self.cols)
        &&& sat_add(self.y, 1) <= row <= sat_add(self.y, self.rows)
    }

    /// Whether the 1-based global cell `(col, row)` lies inside this area.
    pub fn contains_global_cell(self, col: u16, row: u16) -> (r: bool)
        ensures
            r == self.holds_cell(col, row),
    {
        let min_col = self.x.saturating_add(1);
        let min_row = self.y.saturating_add(1);
        let max_col = self.x.saturating_add(self.cols);
        let max_row = self.y.saturating_add(self.rows);
        col >= min_col && col <= max_col && row >= min_row && row <= max_row
    }

    /// The cell `(col, row)` taken relative to the origin of this area
    /// (saturating at zero).
    pub fn local_cell(self, col: u16, row: u16) -> (r: (u16, u16))
        ensures
            r == (sat_sub(col, self.x), sat_sub(row, self.y)),
    {
        (col.saturating_sub(self.x), row.saturating_sub(self.y))
    }
}

/// Size of the first child of a split along an axis of `total` cells.
pub open spec fn first_size_of(total: u16, ratio_per_mille: u16) -> int {
    if total <= 1 {
        total as int
    } else {
        clamp_int((total * ratio_per_mille + 500) / 1000, 1, total - 1)
    }
}

/// A requested first size brought into `1 ..= total - 1`.
pub open spec fn clamped_first_size(size: int, total: u16) -> int {
    if total <= 1 {
        total as int
    } else {
        clamp_int(size, 1, total - 1)
    }
}

/// The ratio (per mille) that places the split after `first_size` of `total`
/// cells, rounded to the nearest per mille and kept within `1 ..= 999`.
pub open spec fn ratio_of(first_size: u16, total: u16) -> int {
    if total <= 1 {
        500
    } else {
        clamp_int((first_size * 1000 + total / 2) / total as int, 1, 999)
    }
}

/// The extent of `area` along the axis that `direction` divides.
pub open spec fn axis_size(area: PaneGeometry, direction: SplitDirection) -> u16 {
    match direction {
        SplitDirection::Horizontal => area.rows,
        SplitDirection::Vertical => area.cols,
    }
}

/// The two child areas of a split of `area`, and the size of the first one.
pub open spec fn split_areas(
    area: PaneGeometry,
    direction: SplitDirection,
    ratio_per_mille: u16,
) -> (PaneGeometry, PaneGeometry, u16) {
    let first = first_size_of(axis_size(area, direction), ratio_per_mille) as u16;
    let second = sat_sub(axis_size(area, direction), first);
    match direction {
        SplitDirection::Horizontal => (
            PaneGeometry { rows: first, ..area },
            PaneGeometry { y: sat_add(area.y, first), rows: second, ..area },
            first,
        ),
        SplitDirection::Vertical => (
            PaneGeometry { cols: first, ..area },
            PaneGeometry { x: sat_add(area.x, first), cols: second, ..area },
            first,
        ),
    }
}

/// The extent of `area` along the axis that `direction` divides.
pub fn split_axis_size(area: PaneGeometry, direction: SplitDirection) -> (r: u16)
    ensures
        r == axis_size(area, direction),
{
    match direction {
        SplitDirection::Horizontal => area.rows,
        SplitDirection::Vertical => area.cols,
    }
}

/// A requested first size brought into `1 ..= total - 1` (or `total` itself
/// when the axis has at most one cell).
pub fn clamp_first_size(size: i32, total: u16) -> (r: u16)
    ensures
        r == clamped_first_size(size as int, total),
{
    if total <= 1 {
        return total;
    }
    let hi: i32 = total as i32 - 1;
    if size < 1 {
        1
    } else if size > hi {
        hi as u16
    } else {
        size as u16
    }
}

/// Size of the first child of a split along an axis of `total` cells, for a
/// ratio given per mille and rounded to the nearest cell.
pub fn first_split_size(total: u16, ratio_per_mille: u16) -> (r: u16)
    ensures
        r == first_size_of(total, ratio_per_mille),
{
    if total <= 1 {
        return total;
    }
    let t: u32 = total as u32;
    let q: u32 = ratio_per_mille as u32;
    assert(t * q <= 65535 * 65535) by (nonlinear_arith)
        requires
            t <= 65535,
            q <= 65535,
    ;
    let size: u32 = (t * q + 500) / 1000;
    assert(size <= 4294837);
    clamp_first_size(size as i32, total)
}

/// The ratio (per mille) that places the split after `first_size` cells of
/// an axis of `total` cells.
pub fn ratio_from_first_size(first_size: u16, total: u16) -> (r: u16)
    ensures
        r == ratio_of(first_size, total),
        1 <= r <= 999,
{
    if total <= 1 {
        return 500;
    }
    let v: u32 = ((first_size as u32) * 1000 + (total as u32) / 2) / (total as u32);
    if v < 1 {
        1
    } else if v > 999 {
        999
    } else {
        v as u16
    }
}

/// Divides `area` into the areas of the two children of a split.
pub fn split_geometry(area: PaneGeometry, direction: SplitDirection, ratio_per_mille: u16) -> (r: (
    PaneGeometry,
    PaneGeometry,
    u16,
))
    ensures
        r == split_areas(area, direction, ratio_per_mille),
{
    match direction {
        SplitDirection::Horizontal => {
            let first_rows = first_split_size(area.rows, ratio_per_mille);
            let second_rows = area.rows.saturating_sub(first_rows);
            (
                PaneGeometry { rows: first_rows, ..area },
                PaneGeometry { y: area.y.saturating_add(first_rows), rows: second_rows, ..area },
                first_rows,
            )
        },
        SplitDirection::Vertical => {
            let first_cols = first_split_size(area.cols, ratio_per_mille);
            let second_cols = area.cols.saturating_sub(first_cols);
            (
                PaneGeometry { cols: first_cols, ..area },
                PaneGeometry { x: area.x.saturating_add(first_cols), cols: second_cols, ..area },
                first_cols,
            )
        },
    }
}


/// A split divides its axis without loss: the first child gets the reported
/// size, the two children's sizes add up to the parent's, the second child
/// starts where the first ends (saturating), and on an axis of at least two
/// cells each child gets at least one.
pub proof fn law_split_areas_tile(area: PaneGeometry, direction: SplitDirection, ratio_per_mille: u16)
    ensures
        ({
            let (a, b, f) = split_areas(area, direction, ratio_per_mille);
            let total = axis_size(area, direction);
            &&& axis_size(a, direction) == f
            &&& axis_size(a, direction) + axis_size(b, direction) == total
            &&& total >= 2 ==> 1 <= f <= total - 1
            &&& match direction {
                SplitDirection::Horizontal => a.x == area.x && a.y == area.y && a.cols == area.cols
                    && b.x == area.x && b.cols == area.cols && b.y == sat_add(area.y, f),
                SplitDirection::Vertical => a.x == area.x && a.y == area.y && a.rows == area.rows
                    && b.y == area.y && b.rows == area.rows && b.x == sat_add(area.x, f),
            }
        }),
{
}

/// Away from the last cell of either axis, a split hands each cell of the
/// parent area to exactly one child, and the children stay away from the
/// last cell too.
pub proof fn lemma_split_partitions_cells(
    area: PaneGeometry,
    direction: SplitDirection,
    ratio_per_mille: u16,
    col: u16,
    row: u16,
)
    requires
        area.x + area.cols < u16::MAX,
        area.y + area.rows < u16::MAX,
    ensures
        ({
            let (a, b, f) = split_areas(area, direction, ratio_per_mille);
            &&& a.x + a.cols < u16::MAX && a.y + a.rows < u16::MAX
            &&& b.x + b.cols < u16::MAX && b.y + b.rows < u16::MAX
            &&& area.holds_cell(col, row) <==> (a.holds_cell(col, row) || b.holds_cell(col, row))
            &&& !(a.holds_cell(col, row) && b.holds_cell(col, row))
        }),
{
    law_split_areas_tile(area, direction, ratio_per_mille);
}

/// On an axis of at most 1000 cells, the ratio computed for a first size
/// gives back that first size: moving a split to a position puts it exactly
/// there.
pub proof fn law_ratio_round_trip(first_size: u16, total: u16)
    requires
        2 <= total <= 1000,
        1 <= first_size <= total - 1,
    ensures
        1 <= ratio_of(first_size, total) <= 999,
        first_size_of(total, ratio_of(first_size, total) as u16) == first_size,
{
    let t = total as int;
    let s = first_size as int;
    let h = t / 2;
    let r0 = (s * 1000 + h) / t;
    assert(r0 * t <= s * 1000 + h < r0 * t + t) by (nonlinear_arith)
        requires
            r0 == (s * 1000 + h) / t,
            t >= 2,
            h >= 0,
            s >= 1,
    ;
    assert(2 * h <= t <= 2 * h + 1);
    if r0 < 1 {
        assert(r0 * t <= 0) by (nonlinear_arith)
            requires
                r0 <= 0,
                t >= 0,
        ;
    }
    assert(r0 <= 999) by (nonlinear_arith)
        requires
            r0 * t <= s * 1000 + h,
            s <= t - 1,
            2 <= t <= 1000,
            2 * h <= t,
            h >= 0,
    ;
    assert(ratio_of(first_size, total) == r0);
    let f0 = (t * r0 + 500) / 1000;
    assert(s * 1000 <= t * r0 + 500) by (nonlinear_arith)
        requires
            s * 1000 + h < r0 * t + t,
            t <= 2 * h + 1,
            t <= 1000,
    ;
    assert(t * r0 + 500 < s * 1000 + 1000 || (t == 1000 && r0 == s)) by (nonlinear_arith)
        requires
            r0 * t <= s * 1000 + h,
            2 * h <= t,
            t <= 1000,
            1 <= r0,
    ;
    assert(f0 == s);
    assert(first_size_of(total, r0 as u16) == f0);
}

} // verus!
