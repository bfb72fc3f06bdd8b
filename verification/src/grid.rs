//! The grid on which the slope field is sampled.
//!
//! An axis cut into `div` divisions has `div + 1` grid lines, both ends
//! included. The grid is walked row by row: `y` index outermost, `t` index
//! innermost.

use crate::scalar::Scalar;
use vstd::arithmetic::div_mod::lemma_fundamental_div_mod_converse;
use vstd::prelude::*;

verus! {

/// A grid point and the slope of the field there.
#[derive(Clone, Copy, Debug, PartialEq, Eq, Structural)]
pub struct SamplePoint {
    pub t: Scalar,
    pub y: Scalar,
    pub slope: Scalar,
}

/// Grid lines across an axis of `div` divisions; none for a negative count.
pub open spec fn axis_points(div: i32) -> int {
    if div < 0 {
        0
    } else {
        div + 1
    }
}

/// Number of points of the grid.
pub open spec fn grid_len(t_div: i32, y_div: i32) -> int {
    axis_points(t_div) * axis_points(y_div)
}

/// Place in a pass of the grid point with index `i` along `t` and `j` along `y`.
pub open spec fn place(i: int, j: int, t_div: i32) -> int {
    j * axis_points(t_div) + i
}

/// Two grid points with the same place are the same point.
pub proof fn lemma_place_unique(i: int, j: int, m: int, n: int, t_div: i32)
    requires
        0 <= i <= t_div,
        0 <= m <= t_div,
        place(i, j, t_div) == place(m, n, t_div),
    ensures
        i == m,
        j == n,
{
    let k = place(i, j, t_div);
    lemma_fundamental_div_mod_converse(k, axis_points(t_div), j, i);
    lemma_fundamental_div_mod_converse(k, axis_points(t_div), n, m);
}

/// The samples that are there, in order, with the gaps left out.
pub open spec fn present(samples: Seq<Option<SamplePoint>>) -> Seq<SamplePoint>
    decreases samples.len(),
{
    if samples.len() == 0 {
        Seq::empty()
    } else {
        match samples.last() {
            Some(point) => present(samples.drop_last()).push(point),
            None => present(samples.drop_last()),
        }
    }
}

/// Leaving out gaps never lengthens a pass, and a pass without gaps keeps
/// its length and every point in its place.
pub proof fn lemma_present_len(samples: Seq<Option<SamplePoint>>)
    ensures
        present(samples).len() <= samples.len(),
        (forall|k: int| 0 <= k < samples.len() ==> samples[k] is Some) ==> {
            &&& present(samples).len() == samples.len()
            &&& forall|k: int|
                0 <= k < samples.len() ==> Some(#[trigger] present(samples)[k]) == samples[k]
        },
    decreases samples.len(),
{
    if samples.len() > 0 {
        lemma_present_len(samples.drop_last());
    }
}

/// Number of grid lines across an axis.
pub fn axis_count(div: i32) -> (n: u64)
    ensures
        n == axis_points(div),
{
    if div < 0 {
        0
    } else {
        (div as u64) + 1
    }
}

/// Number of points of the grid.
pub fn grid_size(t_div: i32, y_div: i32) -> (n: u64)
    ensures
        n == grid_len(t_div, y_div),
{
    let columns: u64 = axis_count(t_div);
    let rows: u64 = axis_count(y_div);
    assert(columns * rows <= 0x8000_0000 * 0x8000_0000) by (nonlinear_arith)
        requires
            columns <= 0x8000_0000,
            rows <= 0x8000_0000,
    ;
    columns * rows
}

/// Every grid point whose place lies within `samples` has its sample there.
pub open spec fn filled<F: Fn(i32, i32) -> Option<SamplePoint>>(
    samples: Seq<Option<SamplePoint>>,
    t_div: i32,
    y_div: i32,
    eval: F,
) -> bool {
    forall|i: i32, j: i32|
        0 <= i <= t_div && 0 <= j <= y_div && place(i as int, j as int, t_div) < samples.len()
            ==> eval.ensures((i, j), #[trigger] samples[place(i as int, j as int, t_div)])
}

proof fn lemma_filled_grows<F: Fn(i32, i32) -> Option<SamplePoint>>(
    samples: Seq<Option<SamplePoint>>,
    i: i32,
    j: i32,
    sample: Option<SamplePoint>,
    t_div: i32,
    y_div: i32,
    eval: F,
)
    requires
        0 <= i <= t_div,
        0 <= j <= y_div,
        samples.len() == place(i as int, j as int, t_div),
        filled(samples, t_div, y_div, eval),
        eval.ensures((i, j), sample),
    ensures
        filled(samples.push(sample), t_div, y_div, eval),
{
    let longer = samples.push(sample);
    assert forall|m: i32, n: i32|
        0 <= m <= t_div && 0 <= n <= y_div && place(m as int, n as int, t_div) < samples.len()
            + 1 implies eval.ensures(
        (m, n),
        #[trigger] longer[place(m as int, n as int, t_div)],
    ) by {
        assert(place(m as int, n as int, t_div) >= 0) by (nonlinear_arith)
            requires
                0 <= m,
                0 <= n,
                0 <= t_div,
                place(m as int, n as int, t_div) == n * (t_div + 1) + m,
        ;
        if place(m as int, n as int, t_div) == samples.len() {
            lemma_place_unique(i as int, j as int, m as int, n as int, t_div);
        } else {
            assert(longer[place(m as int, n as int, t_div)] == samples[place(
                m as int,
                n as int,
                t_div,
            )]);
        }
    }
}

/// Walks the grid and asks `eval` for the sample at each point, given its
/// indices along `t` and `y`; `eval` answers with nothing where the slope
/// cannot be evaluated, which leaves a gap and does not end the pass.
///
/// The result has one entry per grid point, rows of equal `y` one after
/// another: the entry of point `(i, j)` stands at `place(i, j)`.
pub fn sample_with<F: Fn(i32, i32) -> Option<SamplePoint>>(
    t_div: i32,
    y_div: i32,
    eval: F,
) -> (samples: Vec<Option<SamplePoint>>)
    requires
        forall|i: i32, j: i32| 0 <= i <= t_div && 0 <= j <= y_div ==> eval.requires((i, j)),
    ensures
        samples@.len() == grid_len(t_div, y_div),
        filled(samples@, t_div, y_div, eval),
{
    let mut samples: Vec<Option<SamplePoint>> = Vec::new();
    if t_div < 0 || y_div < 0 {
        assert(grid_len(t_div, y_div) == 0) by (nonlinear_arith)
            requires
                axis_points(t_div) == 0 || axis_points(y_div) == 0,
                grid_len(t_div, y_div) == axis_points(t_div) * axis_points(y_div),
        ;
        return samples;
    }
    let mut j: i32 = 0;
    let mut rows_done: bool = false;
    while !rows_done
        invariant
            0 <= j <= y_div,
            0 <= t_div,
            rows_done ==> j == y_div,
            samples@.len() == place(0, if rows_done { j + 1 } else { j as int }, t_div),
            forall|i: i32, j: i32| 0 <= i <= t_div && 0 <= j <= y_div ==> eval.requires((i, j)),
            filled(samples@, t_div, y_div, eval),
        decreases (y_div - j) + (if rows_done { 0int } else { 1int }),
    {
        let mut i: i32 = 0;
        let mut row_done: bool = false;
        while !row_done
            invariant
                0 <= j <= y_div,
                0 <= i <= t_div,
                row_done ==> i == t_div,
                samples@.len() == place(if row_done { i + 1 } else { i as int }, j as int, t_div),
                forall|i: i32, j: i32|
                    0 <= i <= t_div && 0 <= j <= y_div ==> eval.requires((i, j)),
                filled(samples@, t_div, y_div, eval),
            decreases (t_div - i) + (if row_done { 0int } else { 1int }),
        {
            let sample = eval(i, j);
            proof {
                lemma_filled_grows(samples@, i, j, sample, t_div, y_div, eval);
            }
            samples.push(sample);
            if i == t_div {
                row_done = true;
            } else {
                i = i + 1;
            }
        }
        proof {
            assert(place(t_div + 1, j as int, t_div) == place(0, j + 1, t_div))
                by (nonlinear_arith)
                requires
                    0 <= t_div,
            ;
        }
        if j == y_div {
            rows_done = true;
        } else {
            j = j + 1;
        }
    }
    assert(place(0, y_div + 1, t_div) == grid_len(t_div, y_div)) by (nonlinear_arith)
        requires
            0 <= t_div,
            0 <= y_div,
    ;
    samples
}

/// The samples of a pass that are there, in order: a gap is skipped.
pub fn drop_gaps(samples: &Vec<Option<SamplePoint>>) -> (points: Vec<SamplePoint>)
    ensures
        points@ == present(samples@),
{
    let mut points: Vec<SamplePoint> = Vec::new();
    let mut k: usize = 0;
    while k < samples.len()
        invariant
            k <= samples.len(),
            points@ == present(samples@.take(k as int)),
        decreases samples.len() - k,
    {
        proof {
            assert(samples@.take(k + 1).drop_last() =~= samples@.take(k as int));
        }
        match samples[k] {
            Some(point) => {
                points.push(point);
            },
            None => {},
        }
        k = k + 1;
    }
    proof {
        assert(samples@.take(k as int) =~= samples@);
    }
    points
}

} // verus!
