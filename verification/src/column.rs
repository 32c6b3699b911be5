//! Division of the image width into equally wide columns.

use vstd::prelude::*;

verus! {

/// A vertical slice of the image, owned by one worker.
///
/// The slice covers the half-open range `[x_start, x_start + width)` of
/// absolute x coordinates and every row `[0, height)`.
#[derive(Clone, Copy, Debug, PartialEq, Eq, Structural)]
pub struct Column {
    pub index: u32,
    pub x_start: u32,
    pub width: u32,
    pub height: u32,
}

/// Width of each column when `width` is shared among `thread_count` columns.
/// The division truncates.
pub open spec fn column_width(width: nat, thread_count: nat) -> nat
    recommends
        thread_count >= 1,
{
    width / thread_count
}

/// Number of leading image columns that some worker draws.
pub open spec fn covered_width(width: nat, thread_count: nat) -> nat
    recommends
        thread_count >= 1,
{
    column_width(width, thread_count) * thread_count
}

/// The column with the given index, as a mathematical value.
pub open spec fn planned_column(width: nat, height: nat, thread_count: nat, thread_index: nat) -> Column
    recommends
        thread_count >= 1,
        thread_index < thread_count,
        width <= u32::MAX,
        height <= u32::MAX,
{
    Column {
        index: thread_index as u32,
        x_start: (thread_index * column_width(width, thread_count)) as u32,
        width: column_width(width, thread_count) as u32,
        height: height as u32,
    }
}

/// Index of the column that draws pixel column `x`, for an `x` below
/// `covered_width`.
pub open spec fn owner_index(width: nat, thread_count: nat, x: int) -> int
    recommends
        thread_count >= 1,
        0 <= x < covered_width(width, thread_count),
{
    x / (column_width(width, thread_count) as int)
}

impl Column {
    /// Whether absolute coordinate `x` lies in this column.
    pub open spec fn contains_x(&self, x: int) -> bool {
        self.x_start <= x < self.x_start + self.width
    }

    /// Whether the column lies inside an image of the given dimensions.
    pub open spec fn fits(&self, width: nat, height: nat) -> bool {
        &&& self.x_start + self.width <= width
        &&& self.height <= height
    }
}

/// Sum of the widths of the first `count` columns.
pub open spec fn total_width(width: nat, height: nat, thread_count: nat, count: nat) -> nat
    decreases count,
{
    if count == 0 {
        0
    } else {
        total_width(width, height, thread_count, (count - 1) as nat) + planned_column(
            width,
            height,
            thread_count,
            (count - 1) as nat,
        ).width as nat
    }
}

/// `thread_index * (width / thread_count) + width / thread_count` never
/// passes `width` for an index below `thread_count`.
pub proof fn lemma_column_in_bounds(width: nat, thread_count: nat, thread_index: nat)
    requires
        thread_count >= 1,
        thread_index < thread_count,
    ensures
        thread_index * column_width(width, thread_count) + column_width(width, thread_count)
            <= covered_width(width, thread_count),
        covered_width(width, thread_count) <= width,
        width - covered_width(width, thread_count) == width % thread_count,
{
    let cw = column_width(width, thread_count);
    assert(cw * thread_count <= width && width - cw * thread_count == width % thread_count) by {
        vstd::arithmetic::div_mod::lemma_fundamental_div_mod(width as int, thread_count as int);
        vstd::arithmetic::mul::lemma_mul_is_commutative(cw as int, thread_count as int);
    }
    assert(thread_index * cw + cw <= cw * thread_count) by (nonlinear_arith)
        requires
            thread_index + 1 <= thread_count,
            cw >= 0,
    ;
}

/// The columns share out the leading `(width / thread_count) * thread_count`
/// pixel columns of the image and nothing else: their widths add up to that
/// number, which never passes `width`; each column lies below it; and every
/// `x` below it lies in the column `x / (width / thread_count)` and in no
/// other. What is left over on the right, `width % thread_count` pixel
/// columns, belongs to no column.
pub proof fn lemma_columns_share_covered_width(width: u32, height: u32, thread_count: u32)
    requires
        thread_count >= 1,
    ensures
        total_width(width as nat, height as nat, thread_count as nat, thread_count as nat)
            == covered_width(width as nat, thread_count as nat),
        covered_width(width as nat, thread_count as nat) <= width,
        width - covered_width(width as nat, thread_count as nat) == width as nat
            % thread_count as nat,
        forall|i: nat, x: int|
            i < thread_count && #[trigger] planned_column(
                width as nat,
                height as nat,
                thread_count as nat,
                i,
            ).contains_x(x) ==> {
                &&& 0 <= x < covered_width(width as nat, thread_count as nat)
                &&& i == owner_index(width as nat, thread_count as nat, x)
            },
        forall|x: int|
            0 <= x < covered_width(width as nat, thread_count as nat) ==> {
                let i = #[trigger] owner_index(width as nat, thread_count as nat, x);
                &&& 0 <= i < thread_count
                &&& planned_column(
                    width as nat,
                    height as nat,
                    thread_count as nat,
                    i as nat,
                ).contains_x(x)
            },
{
    let w = width as nat;
    let h = height as nat;
    let t = thread_count as nat;
    let cw = column_width(w, t);
    lemma_column_in_bounds(w, t, 0);
    lemma_total_width_prefix(width, height, thread_count, thread_count);
    assert(t * cw == cw * t) by (nonlinear_arith);
    assert forall|i: nat, x: int|
        i < t && #[trigger] planned_column(w, h, t, i).contains_x(x) implies {
        &&& 0 <= x < covered_width(w, t)
        &&& i == owner_index(w, t, x)
    } by {
        lemma_column_in_bounds(w, t, i);
        vstd::arithmetic::div_mod::lemma_fundamental_div_mod_converse(
            x,
            cw as int,
            i as int,
            x - i * cw,
        );
    }
    assert forall|x: int| 0 <= x < covered_width(w, t) implies {
        let i = #[trigger] owner_index(w, t, x);
        &&& 0 <= i < t
        &&& planned_column(w, h, t, i as nat).contains_x(x)
    } by {
        let i = owner_index(w, t, x);
        assert(cw > 0) by (nonlinear_arith)
            requires
                0 <= x < cw * t,
        ;
        vstd::arithmetic::div_mod::lemma_fundamental_div_mod(x, cw as int);
        vstd::arithmetic::div_mod::lemma_mod_bound(x, cw as int);
        assert(0 <= i < t) by (nonlinear_arith)
            requires
                0 <= x < cw * t,
                x == cw * i + x % (cw as int),
                0 <= x % (cw as int) < cw,
                cw > 0,
        ;
        lemma_column_in_bounds(w, t, i as nat);
        assert(cw * i == i * cw) by (nonlinear_arith);
    }
}

/// The first `count` columns are `count * (width / thread_count)` wide
/// together.
pub proof fn lemma_total_width_prefix(width: u32, height: u32, thread_count: u32, count: u32)
    requires
        thread_count >= 1,
        count <= thread_count,
    ensures
        total_width(width as nat, height as nat, thread_count as nat, count as nat) == count
            * column_width(width as nat, thread_count as nat),
    decreases count,
{
    let cw = column_width(width as nat, thread_count as nat);
    if count > 0 {
        lemma_total_width_prefix(width, height, thread_count, (count - 1) as u32);
        lemma_column_in_bounds(width as nat, thread_count as nat, 0);
        assert(cw <= width) by (nonlinear_arith)
            requires
                cw * thread_count <= width,
                thread_count >= 1,
                cw >= 0,
        ;
        assert(count * cw == (count - 1) * cw + cw) by (nonlinear_arith);
        assert(planned_column(
            width as nat,
            height as nat,
            thread_count as nat,
            (count - 1) as nat,
        ).width == cw);
    } else {
        assert(0 * cw == 0);
    }
}

/// Plans the column with index `thread_index` out of `thread_count` columns
/// over an image of `width` by `height` pixels.
pub fn plan_column(width: u32, height: u32, thread_count: u32, thread_index: u32) -> (column: Column)
    requires
        thread_count >= 1,
        thread_index < thread_count,
    ensures
        column == planned_column(width as nat, height as nat, thread_count as nat, thread_index as nat),
        column.index == thread_index,
        column.width == width as nat / thread_count as nat,
        column.x_start == thread_index * (width as nat / thread_count as nat),
        column.height == height,
        column.fits(width as nat, height as nat),
{
    let cw: u32 = width / thread_count;
    proof {
        lemma_column_in_bounds(width as nat, thread_count as nat, thread_index as nat);
    }
    Column { index: thread_index, x_start: thread_index * cw, width: cw, height }
}

} // verus!
