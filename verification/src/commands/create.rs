//! The message with one button per declared category.

use crate::profile::Profile;
use vstd::prelude::*;

verus! {

/// The number of buttons in a full row: the profile's hint, and one where
/// the hint is zero.
pub open spec fn row_width(per_row: u8) -> int {
    if per_row == 0 {
        1
    } else {
        per_row as int
    }
}

/// Whether `rows` lays out the buttons `0, 1, .., count - 1` in rows of
/// `width`: in order, every row full but possibly the last, no row empty.
pub open spec fn lays_out(rows: Seq<Seq<usize>>, count: int, width: int) -> bool {
    &&& forall|r: int| 0 <= r < rows.len() ==> 0 < (#[trigger] rows[r]).len() <= width
    &&& forall|r: int| 0 <= r < rows.len() - 1 ==> (#[trigger] rows[r]).len() == width
    &&& forall|r: int, c: int|
        0 <= r < rows.len() && 0 <= c < rows[r].len() ==> (#[trigger] rows[r][c]) == r * width + c
    &&& if count == 0 {
        rows.len() == 0
    } else {
        rows.len() > 0 && (rows.len() - 1) * width + rows.last().len() == count
    }
}

/// The rows of a layout as sequences.
pub open spec fn rows_view(rows: Seq<Vec<usize>>) -> Seq<Seq<usize>> {
    Seq::new(rows.len(), |r: int| rows[r]@)
}

/// The buttons of the creation message, by the place of their category
/// among the declared ones, row by row.
pub fn run(profile: &Profile) -> (rows: Vec<Vec<usize>>)
    ensures
        lays_out(rows_view(rows@), profile.categories@.len() as int, row_width(profile.per_row)),
{
    let count = profile.categories.len();
    let width: usize = if profile.per_row == 0 {
        1
    } else {
        profile.per_row as usize
    };
    let ghost w = row_width(profile.per_row);
    let mut rows: Vec<Vec<usize>> = Vec::new();
    let mut row: Vec<usize> = Vec::new();
    let mut i: usize = 0;
    assert(rows@.len() * w == 0) by (nonlinear_arith)
        requires
            rows@.len() == 0,
    ;
    while i < count
        invariant
            i <= count,
            w == width,
            w >= 1,
            row@.len() < w,
            rows@.len() * w + row@.len() == i,
            forall|r: int| 0 <= r < rows@.len() ==> (#[trigger] rows@[r])@.len() == w,
            forall|r: int, c: int|
                0 <= r < rows@.len() && 0 <= c < rows@[r]@.len() ==> (#[trigger] rows@[r]@[c]) == r
                    * w + c,
            forall|c: int| 0 <= c < row@.len() ==> (#[trigger] row@[c]) == rows@.len() * w + c,
        decreases count - i,
    {
        row.push(i);
        if row.len() >= width {
            let ghost full = row@;
            let ghost before = rows@;
            rows.push(row);
            row = Vec::new();
            proof {
                assert((before.len() + 1) * w == before.len() * w + w) by (nonlinear_arith);
                assert forall|r: int, c: int|
                    0 <= r < rows@.len() && 0 <= c < rows@[r]@.len() implies (#[trigger] rows@[r]@[c])
                    == r * w + c by {
                    if r < before.len() {
                        assert(rows@[r] == before[r]);
                    } else {
                        assert(rows@[r]@ == full);
                    }
                }
            }
        }
        i += 1;
    }
    let ghost whole = rows@;
    if row.len() > 0 {
        rows.push(row);
        proof {
            assert(rows@.len() - 1 == whole.len());
            assert forall|r: int, c: int|
                0 <= r < rows@.len() && 0 <= c < rows@[r]@.len() implies (#[trigger] rows@[r]@[c]) == r
                * w + c by {
                if r < whole.len() {
                    assert(rows@[r] == whole[r]);
                }
            }
        }
    } else {
        proof {
            if rows@.len() > 0 {
                assert((rows@.len() - 1) * w + w == rows@.len() * w) by (nonlinear_arith);
            } else {
                assert(rows@.len() * w == 0) by (nonlinear_arith)
                    requires
                        rows@.len() == 0,
                ;
            }
        }
    }
    proof {
        let view = rows_view(rows@);
        assert forall|r: int| 0 <= r < view.len() implies 0 < (#[trigger] view[r]).len() <= w by {
            assert(view[r] == rows@[r]@);
        }
        assert forall|r: int| 0 <= r < view.len() - 1 implies (#[trigger] view[r]).len() == w by {
            assert(view[r] == rows@[r]@);
        }
        assert forall|r: int, c: int| 0 <= r < view.len() && 0 <= c < view[r].len() implies (
        #[trigger] view[r][c]) == r * w + c by {
            assert(view[r] == rows@[r]@);
        }
    }
    rows
}

} // verus!
