//! The transform map: the dense time-frequency magnitude field that the
//! per-window spectra are accumulated into, and the single normalization
//! pass that rescales it to the unit range once accumulation is complete.
//!
//! Raw magnitudes are non-negative integers; normalized values are fixed
//! point, with [`NORM_ONE`] standing for the real value 1. Frequency bin 0
//! (the DC component) is never populated: it carries no periodic
//! information and would otherwise dominate normalization.

use vstd::prelude::*;

use crate::TransformError;

verus! {

/// One unit of normalized magnitude: a normalized cell value of
/// `NORM_ONE` stands for the real value 1.
pub const NORM_ONE: u64 = 1_000_000;

/// Largest raw magnitude a cell may hold, chosen so that
/// `cell * NORM_ONE` stays within `u128` during normalization.
pub const MAX_CELL: u128 = u128::MAX / 1_000_000;

/// The absolute value of a spectrum entry: the magnitude this engine
/// accumulates is the absolute value of the real component of each
/// transform output.
pub open spec fn spec_abs(v: i64) -> int {
    if v >= 0 {
        v as int
    } else {
        -(v as int)
    }
}

/// The accumulated two-dimensional magnitude field: one row per analysis
/// window, one column per retained frequency bin.
#[derive(Clone, Debug)]
pub struct TransformMap {
    cells: Vec<Vec<u128>>,
    height: usize,
    window_length: usize,
}

impl View for TransformMap {
    type V = Seq<Seq<u128>>;

    closed spec fn view(&self) -> Seq<Seq<u128>> {
        self.cells@.map_values(|row: Vec<u128>| row@)
    }
}

impl TransformMap {
    /// Number of rows: one per analysis window.
    pub closed spec fn spec_width(&self) -> usize {
        self.cells.len()
    }

    /// Number of columns: how many frequency bins are retained.
    pub closed spec fn spec_height(&self) -> usize {
        self.height
    }

    /// The window length every accumulated spectrum must have.
    pub closed spec fn spec_window_length(&self) -> usize {
        self.window_length
    }

    /// Every row has `height` cells, cell values stay within [`MAX_CELL`],
    /// the retained bins are at most half the window length, and bin 0 is
    /// never populated.
    pub closed spec fn wf(&self) -> bool {
        &&& self.window_length >= 1
        &&& 2 * self.height <= self.window_length
        &&& forall|x: int| 0 <= x < self@.len() ==> (#[trigger] self@[x]).len() == self.height
        &&& forall|x: int, k: int|
            0 <= x < self@.len() && 0 <= k < self.height ==> #[trigger] self@[x][k] <= MAX_CELL
        &&& forall|x: int|
            0 <= x < self@.len() && self.height > 0 ==> (#[trigger] self@[x])[0] == 0
    }

    /// Allocates a `width` by `height` map of zero cells for windows of
    /// `window_length` samples. The height is at most half the window
    /// length: the upper half of each spectrum mirrors the lower half and
    /// is discarded.
    pub fn new(width: usize, height: usize, window_length: usize) -> (r: TransformMap)
        requires
            window_length >= 1,
            2 * height <= window_length,
        ensures
            r.wf(),
            r.spec_width() == width,
            r.spec_height() == height,
            r.spec_window_length() == window_length,
            r@.len() == width,
            forall|x: int, k: int| 0 <= x < width && 0 <= k < height ==> #[trigger] r@[x][k] == 0,
    {
        let mut cells: Vec<Vec<u128>> = Vec::new();
        let mut x: usize = 0;
        while x < width
            invariant
                x <= width,
                cells@.len() == x,
                forall|i: int| 0 <= i < x ==> (#[trigger] cells@[i])@.len() == height,
                forall|i: int, k: int|
                    0 <= i < x && 0 <= k < height ==> #[trigger] cells@[i]@[k] == 0,
            decreases width - x,
        {
            let mut row: Vec<u128> = Vec::new();
            let mut k: usize = 0;
            while k < height
                invariant
                    k <= height,
                    row@.len() == k,
                    forall|i: int| 0 <= i < k ==> row@[i] == 0,
                decreases height - k,
            {
                row.push(0);
                k = k + 1;
            }
            cells.push(row);
            x = x + 1;
        }
        TransformMap { cells, height, window_length }
    }

    /// Number of rows: one per analysis window.
    pub fn width(&self) -> (r: usize)
        ensures
            r == self.spec_width(),
    {
        self.cells.len()
    }

    /// Number of columns: how many frequency bins are retained.
    pub fn height(&self) -> (r: usize)
        ensures
            r == self.spec_height(),
    {
        self.height
    }

    /// The raw accumulated magnitude of window `x`, frequency bin `k`.
    pub fn cell(&self, x: usize, k: usize) -> (r: u128)
        requires
            self.wf(),
            x < self.spec_width(),
            k < self.spec_height(),
        ensures
            r == self@[x as int][k as int],
    {
        assert(self@[x as int] == self.cells@[x as int]@);
        self.cells[x][k]
    }

    /// The magnitude contributed by spectrum entry `v`: its absolute value.
    fn abs_magnitude(v: i64) -> (r: u128)
        ensures
            r as int == spec_abs(v),
    {
        if v >= 0 {
            v as u128
        } else {
            (-(v as i128)) as u128
        }
    }

    /// Adds one channel's spectrum into row `x`: for every retained bin
    /// `k >= 1`, the absolute value of entry `k` is added to the cell
    /// `(x, k)`; bin 0 is skipped. Fails with `InvalidState`, leaving the
    /// map unchanged, when the spectrum's length is not the window length:
    /// a caller-contract violation, not a recoverable condition.
    pub fn accumulate_spectrum(&mut self, x: usize, spectrum: &Vec<i64>) -> (r: Result<
        (),
        TransformError,
    >)
        requires
            old(self).wf(),
            x < old(self).spec_width(),
            forall|k: int|
                1 <= k < old(self).spec_height() ==> old(self)@[x as int][k] + spec_abs(
                    #[trigger] spectrum@[k],
                ) <= MAX_CELL,
        ensures
            final(self).wf(),
            final(self)@.len() == old(self)@.len(),
            final(self).spec_width() == old(self).spec_width(),
            final(self).spec_height() == old(self).spec_height(),
            final(self).spec_window_length() == old(self).spec_window_length(),
            r is Ok <==> spectrum@.len() == old(self).spec_window_length(),
            r is Err ==> r->Err_0 == TransformError::InvalidState && final(self)@ == old(self)@,
            r is Ok ==> {
                &&& forall|y: int|
                    0 <= y < old(self)@.len() && y != x ==> final(self)@[y] == #[trigger] old(
                        self,
                    )@[y]
                &&& forall|k: int|
                    1 <= k < old(self).spec_height() ==> #[trigger] final(self)@[x as int][k]
                        == old(self)@[x as int][k] + spec_abs(spectrum@[k])
                &&& old(self).spec_height() > 0 ==> final(self)@[x as int][0] == 0
            },
    {
        if spectrum.len() != self.window_length {
            return Err(TransformError::InvalidState);
        }
        let height = self.height;
        let mut new_row: Vec<u128> = Vec::new();
        let mut j: usize = 0;
        while j < height
            invariant
                j <= height,
                new_row@.len() == j,
                *self == *old(self),
                old(self).wf(),
                height == old(self).spec_height(),
                x < old(self).spec_width(),
                spectrum@.len() == old(self).spec_window_length(),
                forall|i: int|
                    1 <= i < height ==> old(self)@[x as int][i] + spec_abs(
                        #[trigger] spectrum@[i],
                    ) <= MAX_CELL,
                forall|i: int|
                    1 <= i < j ==> #[trigger] new_row@[i] == old(self)@[x as int][i] + spec_abs(
                        spectrum@[i],
                    ),
                j > 0 && height > 0 ==> new_row@[0] == 0,
            decreases height - j,
        {
            assert(self.cells@[x as int]@ == self@[x as int]);
            let cell = self.cells[x][j];
            assert(cell == old(self)@[x as int][j as int]);
            let v = if j >= 1 {
                let mag = Self::abs_magnitude(spectrum[j]);
                cell + mag
            } else {
                cell
            };
            new_row.push(v);
            j = j + 1;
        }
        self.cells.set(x, new_row);
        proof {
            assert forall|y: int| 0 <= y < self@.len() && y != x implies #[trigger] self@[y]
                == old(self)@[y] by {
                assert(self.cells@[y] == old(self).cells@[y]);
            }
            assert(self@[x as int].len() == height);
            assert forall|x0: int, k0: int|
                0 <= x0 < self@.len() && 0 <= k0 < height implies #[trigger] self@[x0][k0]
                <= MAX_CELL by {
                if x0 == x {
                    assert(self@[x0] == self.cells@[x0]@);
                } else {
                    assert(self@[x0] == old(self)@[x0]);
                    assert(old(self)@[x0][k0] <= MAX_CELL);
                }
            }
            assert forall|x0: int|
                0 <= x0 < self@.len() && height > 0 implies (#[trigger] self@[x0])[0] == 0 by {
                if x0 != x {
                    assert(self@[x0] == old(self)@[x0]);
                }
            }
        }
        Ok(())
    }
}

/// The largest value in one row, or zero for an empty row.
pub open spec fn spec_row_max(row: Seq<u128>) -> int
    decreases row.len(),
{
    if row.len() == 0 {
        0
    } else {
        vstd::math::max(spec_row_max(row.drop_last()), row.last() as int)
    }
}

/// The largest cell value in the whole map, or zero for an empty map.
pub open spec fn spec_grid_max(cells: Seq<Seq<u128>>) -> int
    decreases cells.len(),
{
    if cells.len() == 0 {
        0
    } else {
        vstd::math::max(spec_grid_max(cells.drop_last()), spec_row_max(cells.last()))
    }
}

/// The normalization divisor: the global maximum with a floor of one, so
/// that silent input divides by one instead of by zero.
pub open spec fn spec_norm_divisor(cells: Seq<Seq<u128>>) -> int {
    vstd::math::max(spec_grid_max(cells), 1)
}

/// The row maximum is non-negative and no row entry exceeds it.
pub proof fn lemma_row_max_bounds(row: Seq<u128>)
    ensures
        0 <= spec_row_max(row),
        forall|k: int| 0 <= k < row.len() ==> #[trigger] row[k] <= spec_row_max(row),
    decreases row.len(),
{
    if row.len() > 0 {
        lemma_row_max_bounds(row.drop_last());
        assert forall|k: int| 0 <= k < row.len() implies #[trigger] row[k] <= spec_row_max(
            row,
        ) by {
            if k < row.len() - 1 {
                assert(row[k] == row.drop_last()[k]);
            }
        }
    }
}

/// The grid maximum is non-negative and no cell exceeds it.
pub proof fn lemma_grid_max_bounds(cells: Seq<Seq<u128>>)
    ensures
        0 <= spec_grid_max(cells),
        forall|x: int, k: int|
            0 <= x < cells.len() && 0 <= k < cells[x].len() ==> #[trigger] cells[x][k]
                <= spec_grid_max(cells),
    decreases cells.len(),
{
    if cells.len() > 0 {
        lemma_grid_max_bounds(cells.drop_last());
        lemma_row_max_bounds(cells.last());
        assert forall|x: int, k: int|
            0 <= x < cells.len() && 0 <= k < cells[x].len() implies #[trigger] cells[x][k]
            <= spec_grid_max(cells) by {
            if x < cells.len() - 1 {
                assert(cells[x] == cells.drop_last()[x]);
            } else {
                assert(cells[x] == cells.last());
            }
        }
    }
}

/// A positive row maximum is achieved by some entry of the row.
pub proof fn lemma_row_max_achieved(row: Seq<u128>)
    requires
        spec_row_max(row) > 0,
    ensures
        exists|k: int| 0 <= k < row.len() && row[k] == spec_row_max(row),
    decreases row.len(),
{
    if row.last() as int == spec_row_max(row) {
        assert(row[row.len() - 1] == spec_row_max(row));
    } else {
        lemma_row_max_achieved(row.drop_last());
        let k = choose|k: int|
            0 <= k < row.drop_last().len() && row.drop_last()[k] == spec_row_max(row.drop_last());
        assert(row[k] == spec_row_max(row));
    }
}

/// A positive grid maximum is achieved by some cell of the map.
pub proof fn lemma_grid_max_achieved(cells: Seq<Seq<u128>>)
    requires
        spec_grid_max(cells) > 0,
    ensures
        exists|x: int, k: int|
            0 <= x < cells.len() && 0 <= k < cells[x].len() && cells[x][k] == spec_grid_max(cells),
    decreases cells.len(),
{
    if spec_row_max(cells.last()) == spec_grid_max(cells) {
        lemma_row_max_achieved(cells.last());
        let k = choose|k: int|
            0 <= k < cells.last().len() && cells.last()[k] == spec_row_max(cells.last());
        assert(cells[cells.len() - 1][k] == spec_grid_max(cells));
    } else {
        lemma_grid_max_achieved(cells.drop_last());
        let (x, k) = choose|x: int, k: int|
            0 <= x < cells.drop_last().len() && 0 <= k < cells.drop_last()[x].len()
                && cells.drop_last()[x][k] == spec_grid_max(cells.drop_last());
        assert(cells[x] == cells.drop_last()[x]);
        assert(cells[x][k] == spec_grid_max(cells));
    }
}

/// Bin 0 is never the source of the reported global maximum: in a map
/// whose bin-0 cells are all zero, a positive maximum is achieved at some
/// bin `k >= 1`.
pub proof fn lemma_dc_never_max(cells: Seq<Seq<u128>>)
    requires
        spec_grid_max(cells) > 0,
        forall|x: int|
            0 <= x < cells.len() && (#[trigger] cells[x]).len() > 0 ==> cells[x][0] == 0,
    ensures
        exists|x: int, k: int|
            0 <= x < cells.len() && 1 <= k < cells[x].len() && cells[x][k] == spec_grid_max(cells),
{
    lemma_grid_max_achieved(cells);
    let (x, k) = choose|x: int, k: int|
        0 <= x < cells.len() && 0 <= k < cells[x].len() && cells[x][k] == spec_grid_max(cells);
    assert(cells[x].len() > 0);
    assert(k != 0);
    assert(0 <= x < cells.len() && 1 <= k < cells[x].len() && cells[x][k] == spec_grid_max(cells));
}

/// An all-zero map has grid maximum zero.
pub proof fn lemma_grid_max_of_silence(cells: Seq<Seq<u128>>)
    requires
        forall|x: int, k: int|
            0 <= x < cells.len() && 0 <= k < cells[x].len() ==> #[trigger] cells[x][k] == 0,
    ensures
        spec_grid_max(cells) == 0,
    decreases cells.len(),
{
    if cells.len() > 0 {
        assert forall|x: int, k: int|
            0 <= x < cells.drop_last().len() && 0 <= k < cells.drop_last()[x].len() implies (
        #[trigger] cells.drop_last()[x][k]) == 0 by {
            assert(cells.drop_last()[x] == cells[x]);
        }
        lemma_grid_max_of_silence(cells.drop_last());
        let last = cells.last();
        assert forall|k: int| 0 <= k < last.len() implies #[trigger] last[k] == 0 by {
            assert(cells[cells.len() - 1][k] == 0);
        }
        lemma_row_max_of_silence(last);
    }
}

/// An all-zero row has row maximum zero.
pub proof fn lemma_row_max_of_silence(row: Seq<u128>)
    requires
        forall|k: int| 0 <= k < row.len() ==> #[trigger] row[k] == 0,
    ensures
        spec_row_max(row) == 0,
    decreases row.len(),
{
    if row.len() > 0 {
        assert forall|k: int| 0 <= k < row.drop_last().len() implies #[trigger] row.drop_last()[k]
            == 0 by {
            assert(row.drop_last()[k] == row[k]);
        }
        lemma_row_max_of_silence(row.drop_last());
    }
}

impl TransformMap {
    /// The maximum magnitude observed across the whole map: the
    /// normalization denominator, computed once accumulation finishes.
    pub fn global_max(&self) -> (r: u128)
        ensures
            r as int == spec_grid_max(self@),
    {
        let mut m: u128 = 0;
        let mut x: usize = 0;
        while x < self.cells.len()
            invariant
                x <= self.cells@.len(),
                self@.len() == self.cells@.len(),
                forall|i: int| 0 <= i < self@.len() ==> self@[i] == self.cells@[i]@,
                m as int == spec_grid_max(self@.subrange(0, x as int)),
            decreases self.cells@.len() - x,
        {
            let row = &self.cells[x];
            let mut k: usize = 0;
            while k < row.len()
                invariant
                    k <= row@.len(),
                    x < self.cells@.len(),
                    self@.len() == self.cells@.len(),
                    forall|i: int| 0 <= i < self@.len() ==> self@[i] == self.cells@[i]@,
                    row@ == self@[x as int],
                    m as int == vstd::math::max(
                        spec_grid_max(self@.subrange(0, x as int)),
                        spec_row_max(row@.subrange(0, k as int)),
                    ),
                decreases row@.len() - k,
            {
                proof {
                    assert(row@.subrange(0, k as int + 1).drop_last() =~= row@.subrange(
                        0,
                        k as int,
                    ));
                    assert(row@.subrange(0, k as int + 1).last() == row@[k as int]);
                }
                let v = row[k];
                if v > m {
                    m = v;
                }
                k = k + 1;
            }
            proof {
                assert(row@.subrange(0, row@.len() as int) =~= row@);
                assert(self@.subrange(0, x as int + 1).drop_last() =~= self@.subrange(
                    0,
                    x as int,
                ));
                assert(self@.subrange(0, x as int + 1).last() == self@[x as int]);
            }
            x = x + 1;
        }
        proof {
            assert(self@.subrange(0, self@.len() as int) =~= self@);
        }
        m
    }
}

/// The contrast amplifier applied to every cell during normalization:
/// identity by default, or `x ↦ (gain · x)²`, which increases contrast by
/// suppressing low magnitudes relative to peaks.
#[derive(Clone, Copy, PartialEq, Eq, Structural, Debug)]
pub enum Amplifier {
    Identity,
    SquareGain(u32),
}

impl Amplifier {
    /// A monotonic amplifier that keeps the peak at full scale: a
    /// square-law gain of at least one.
    pub open spec fn wf(&self) -> bool {
        match *self {
            Amplifier::Identity => true,
            Amplifier::SquareGain(g) => g >= 1,
        }
    }

    /// The amplifier in fixed point, before clamping: `x` and the result
    /// both carry [`NORM_ONE`] as the unit.
    pub open spec fn spec_apply(&self, x: int) -> int {
        match *self {
            Amplifier::Identity => x,
            Amplifier::SquareGain(g) => ((g * x) * (g * x)) / (NORM_ONE as int),
        }
    }

    /// Applying an amplifier to zero yields zero.
    pub proof fn lemma_apply_zero(&self)
        ensures
            self.spec_apply(0) == 0,
    {
        match *self {
            Amplifier::Identity => {},
            Amplifier::SquareGain(g) => {
                assert((g * 0) * (g * 0) == 0) by (nonlinear_arith);
            },
        }
    }

    /// A well-formed amplifier maps full scale at or above full scale, so
    /// the clamped peak stays at full scale.
    pub proof fn lemma_apply_full_scale(&self)
        requires
            self.wf(),
        ensures
            self.spec_apply(NORM_ONE as int) >= NORM_ONE as int,
    {
        match *self {
            Amplifier::Identity => {},
            Amplifier::SquareGain(g) => {
                let s = NORM_ONE as int;
                assert((g * s) * (g * s) == (g * g) * s * s) by (nonlinear_arith);
                assert(((g * g) * s * s) / s == (g * g) * s) by (nonlinear_arith)
                    requires
                        s > 0,
                ;
                assert((g * g) * s >= s) by (nonlinear_arith)
                    requires
                        g >= 1 && s > 0,
                ;
            },
        }
    }

    /// The amplified, clamped value in fixed point.
    fn apply(&self, x: u64) -> (r: u64)
        requires
            x <= NORM_ONE,
        ensures
            r as int == vstd::math::min(self.spec_apply(x as int), NORM_ONE as int),
            r <= NORM_ONE,
    {
        match self {
            Amplifier::Identity => x,
            Amplifier::SquareGain(g) => {
                proof {
                    vstd::arithmetic::mul::lemma_mul_upper_bound(
                        *g as int,
                        u32::MAX as int,
                        x as int,
                        NORM_ONE as int,
                    );
                    vstd::arithmetic::mul::lemma_mul_upper_bound(
                        *g as int * x as int,
                        u32::MAX as int * NORM_ONE as int,
                        *g as int * x as int,
                        u32::MAX as int * NORM_ONE as int,
                    );
                }
                let p: u128 = (*g as u128) * (x as u128);
                let sq: u128 = p * p;
                let q: u128 = sq / (NORM_ONE as u128);
                if q >= NORM_ONE as u128 {
                    NORM_ONE
                } else {
                    q as u64
                }
            },
        }
    }
}

/// One cell after normalization: the cell divided by the normalization
/// divisor in fixed point, amplified, and clamped to the unit range.
pub open spec fn spec_normalized_cell(a: Amplifier, v: int, m: int) -> int {
    vstd::math::min(a.spec_apply(v * NORM_ONE / m), NORM_ONE as int)
}

/// Silence normalizes to silence: an all-zero accumulated map yields an
/// all-zero normalized map, whatever the amplifier — the divisor floor of
/// one keeps a zero global maximum from dividing by zero.
pub proof fn lemma_silence_normalizes_to_zero(a: Amplifier, cells: Seq<Seq<u128>>)
    requires
        forall|x: int, k: int|
            0 <= x < cells.len() && 0 <= k < cells[x].len() ==> #[trigger] cells[x][k] == 0,
    ensures
        forall|x: int, k: int|
            0 <= x < cells.len() && 0 <= k < cells[x].len() ==> #[trigger] spec_normalized_cell(
                a,
                cells[x][k] as int,
                spec_norm_divisor(cells),
            ) == 0,
{
    lemma_grid_max_of_silence(cells);
    a.lemma_apply_zero();
    assert(spec_norm_divisor(cells) == 1);
    assert forall|x: int, k: int|
        0 <= x < cells.len() && 0 <= k < cells[x].len() implies #[trigger] spec_normalized_cell(
        a,
        cells[x][k] as int,
        spec_norm_divisor(cells),
    ) == 0 by {
        assert(cells[x][k] == 0);
        assert(0 * NORM_ONE as int == 0) by (nonlinear_arith);
    }
}

/// Normalization is deterministic: two normalized maps that both satisfy
/// the per-cell description of [`TransformMap::normalize`] for the same
/// accumulated cells and amplifier are one and the same map.
pub proof fn lemma_normalize_deterministic(
    n1: Seq<Seq<u64>>,
    n2: Seq<Seq<u64>>,
    cells: Seq<Seq<u128>>,
    a: Amplifier,
    width: int,
    height: int,
)
    requires
        n1.len() == width,
        n2.len() == width,
        forall|x: int|
            0 <= x < width ==> (#[trigger] n1[x]).len() == height && (#[trigger] n2[x]).len()
                == height,
        forall|x: int, k: int|
            0 <= x < width && 0 <= k < height ==> #[trigger] n1[x][k] == spec_normalized_cell(
                a,
                cells[x][k] as int,
                spec_norm_divisor(cells),
            ),
        forall|x: int, k: int|
            0 <= x < width && 0 <= k < height ==> #[trigger] n2[x][k] == spec_normalized_cell(
                a,
                cells[x][k] as int,
                spec_norm_divisor(cells),
            ),
    ensures
        n1 == n2,
{
    assert forall|x: int| 0 <= x < width implies #[trigger] n1[x] == n2[x] by {
        assert(n1[x] =~= n2[x]);
    }
    assert(n1 =~= n2);
}

/// The finished, normalized transform map handed to a renderer: a dense
/// `width` by `height` grid of fixed-point values in `[0, NORM_ONE]`,
/// row-major by window index.
pub struct NormalizedMap {
    cells: Vec<Vec<u64>>,
    height: usize,
}

impl View for NormalizedMap {
    type V = Seq<Seq<u64>>;

    closed spec fn view(&self) -> Seq<Seq<u64>> {
        self.cells@.map_values(|row: Vec<u64>| row@)
    }
}

impl NormalizedMap {
    /// Number of rows: one per analysis window.
    pub closed spec fn spec_width(&self) -> usize {
        self.cells.len()
    }

    /// Number of columns: how many frequency bins are retained.
    pub closed spec fn spec_height(&self) -> usize {
        self.height
    }

    /// Every row has `height` cells and every value is in the unit range.
    pub open spec fn wf(&self) -> bool {
        &&& self@.len() == self.spec_width()
        &&& forall|x: int|
            0 <= x < self@.len() ==> (#[trigger] self@[x]).len() == self.spec_height()
        &&& forall|x: int, k: int|
            0 <= x < self@.len() && 0 <= k < self.spec_height() ==> #[trigger] self@[x][k]
                <= NORM_ONE
    }

    /// Number of rows: one per analysis window.
    pub fn width(&self) -> (r: usize)
        ensures
            r == self.spec_width(),
    {
        self.cells.len()
    }

    /// Number of columns: how many frequency bins are retained.
    pub fn height(&self) -> (r: usize)
        ensures
            r == self.spec_height(),
    {
        self.height
    }

    /// The normalized value of window `x`, frequency bin `k`.
    pub fn value(&self, x: usize, k: usize) -> (r: u64)
        requires
            self.wf(),
            x < self.spec_width(),
            k < self.spec_height(),
        ensures
            r == self@[x as int][k as int],
            r <= NORM_ONE,
    {
        assert(self@[x as int] == self.cells@[x as int]@);
        self.cells[x][k]
    }
}

impl TransformMap {
    /// Normalizes the accumulated map, consuming it: every cell is divided
    /// by the global maximum (floored at one, so silence divides by one),
    /// amplified, and clamped to the unit range. Consuming the raw map
    /// makes this a single pass by construction: accumulation is over
    /// before it, and no cell can be accumulated after it.
    ///
    /// The postconditions carry the normalization guarantees: every output
    /// value lies in `[0, NORM_ONE]`; when the input was not silent some
    /// cell equals `NORM_ONE` exactly; and bin 0 is zero in every row.
    pub fn normalize(self, amplifier: &Amplifier) -> (r: NormalizedMap)
        requires
            self.wf(),
            amplifier.wf(),
        ensures
            r.wf(),
            r.spec_width() == self.spec_width(),
            r.spec_height() == self.spec_height(),
            r@.len() == self@.len(),
            forall|x: int, k: int|
                0 <= x < r@.len() && 0 <= k < r.spec_height() ==> #[trigger] r@[x][k]
                    == spec_normalized_cell(
                    *amplifier,
                    self@[x][k] as int,
                    spec_norm_divisor(self@),
                ),
            spec_grid_max(self@) > 0 ==> exists|x: int, k: int|
                0 <= x < r@.len() && 0 <= k < r.spec_height() && #[trigger] r@[x][k] == NORM_ONE,
            forall|x: int|
                0 <= x < r@.len() && r.spec_height() > 0 ==> (#[trigger] r@[x])[0] == 0,
    {
        let gm = self.global_max();
        let m: u128 = if gm == 0 {
            1
        } else {
            gm
        };
        proof {
            lemma_grid_max_bounds(self@);
        }
        let height = self.height;
        let mut rows: Vec<Vec<u64>> = Vec::new();
        let mut x: usize = 0;
        while x < self.cells.len()
            invariant
                x <= self.cells@.len(),
                self.wf(),
                height == self.spec_height(),
                self@.len() == self.cells@.len(),
                forall|i: int| 0 <= i < self@.len() ==> self@[i] == self.cells@[i]@,
                m as int == spec_norm_divisor(self@),
                forall|i: int, k: int|
                    0 <= i < self@.len() && 0 <= k < height ==> #[trigger] self@[i][k] <= m,
                rows@.len() == x,
                forall|i: int| 0 <= i < x ==> (#[trigger] rows@[i])@.len() == height,
                forall|i: int, k: int|
                    0 <= i < x && 0 <= k < height ==> #[trigger] rows@[i]@[k]
                        == spec_normalized_cell(
                        *amplifier,
                        self@[i][k] as int,
                        spec_norm_divisor(self@),
                    ),
            decreases self.cells@.len() - x,
        {
            let row = &self.cells[x];
            assert(row@ == self@[x as int]);
            let mut out: Vec<u64> = Vec::new();
            let mut k: usize = 0;
            while k < height
                invariant
                    k <= height,
                    x < self.cells@.len(),
                    self.wf(),
                    height == self.spec_height(),
                    self@.len() == self.cells@.len(),
                    forall|i: int| 0 <= i < self@.len() ==> self@[i] == self.cells@[i]@,
                    row@ == self@[x as int],
                    row@.len() == height,
                    m as int == spec_norm_divisor(self@),
                    m >= 1,
                    forall|i: int, k2: int|
                        0 <= i < self@.len() && 0 <= k2 < height ==> #[trigger] self@[i][k2] <= m,
                    out@.len() == k,
                    forall|k2: int|
                        0 <= k2 < k ==> #[trigger] out@[k2] == spec_normalized_cell(
                            *amplifier,
                            self@[x as int][k2] as int,
                            spec_norm_divisor(self@),
                        ),
                decreases height - k,
            {
                let cell = row[k];
                proof {
                    vstd::arithmetic::mul::lemma_mul_inequality(
                        cell as int,
                        MAX_CELL as int,
                        NORM_ONE as int,
                    );
                    vstd::arithmetic::div_mod::lemma_fundamental_div_mod(
                        u128::MAX as int,
                        NORM_ONE as int,
                    );
                    vstd::arithmetic::div_mod::lemma_mod_bound(u128::MAX as int, NORM_ONE as int);
                    vstd::arithmetic::mul::lemma_mul_inequality(
                        cell as int,
                        m as int,
                        NORM_ONE as int,
                    );
                    vstd::arithmetic::div_mod::lemma_div_is_ordered(
                        cell as int * NORM_ONE as int,
                        m as int * NORM_ONE as int,
                        m as int,
                    );
                    vstd::arithmetic::div_mod::lemma_div_multiples_vanish(
                        NORM_ONE as int,
                        m as int,
                    );
                    assert(m as int * NORM_ONE as int == NORM_ONE as int * m as int);
                }
                let ratio: u128 = cell * (NORM_ONE as u128) / m;
                assert(ratio <= NORM_ONE);
                let v = amplifier.apply(ratio as u64);
                out.push(v);
                k = k + 1;
            }
            rows.push(out);
            x = x + 1;
        }
        let r = NormalizedMap { cells: rows, height };
        proof {
            if spec_grid_max(self@) > 0 {
                lemma_grid_max_achieved(self@);
                let (wx, wk) = choose|wx: int, wk: int|
                    0 <= wx < self@.len() && 0 <= wk < self@[wx].len() && self@[wx][wk]
                        == spec_grid_max(self@);
                assert(self@[wx].len() == height);
                assert(self@[wx][wk] == m);
                vstd::arithmetic::div_mod::lemma_div_multiples_vanish(NORM_ONE as int, m as int);
                assert(m as int * NORM_ONE as int == NORM_ONE as int * m as int);
                assert(m as int * NORM_ONE as int / m as int == NORM_ONE as int);
                amplifier.lemma_apply_full_scale();
                assert(r@[wx][wk] == NORM_ONE);
            }
            assert forall|x0: int|
                0 <= x0 < r@.len() && height > 0 implies (#[trigger] r@[x0])[0] == 0 by {
                assert(self@[x0][0] == 0);
                assert(0 * NORM_ONE as int == 0) by (nonlinear_arith);
                amplifier.lemma_apply_zero();
                assert(r@[x0][0] == spec_normalized_cell(*amplifier, 0, m as int));
            }
        }
        r
    }
}

} // verus!
