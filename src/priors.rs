//! Layout of the face detector's prior boxes (anchors).
//!
//! Each detector level has a stride `step` and a list of anchor sizes. Its
//! feature map has `width / step` columns and `height / step` rows; the anchors
//! of a level are laid out row by row, column by column, with one anchor per
//! size in each cell. Levels follow each other in order.
use vstd::prelude::*;

verus! {

/// One anchor: the feature-map cell it is centred on, the level's stride and its size.
#[derive(Clone, Copy, Debug, PartialEq, Eq, Structural)]
pub struct AnchorCell {
    pub col: usize,
    pub row: usize,
    pub step: usize,
    pub min_size: usize,
}

/// Strides and anchor sizes of the detector levels.
pub struct AnchorLayout {
    pub min_sizes: Vec<Vec<usize>>,
    pub steps: Vec<usize>,
}

impl AnchorLayout {
    /// Number of levels that have both a stride and a list of sizes.
    pub open spec fn levels(&self) -> int {
        if self.steps@.len() <= self.min_sizes@.len() {
            self.steps@.len() as int
        } else {
            self.min_sizes@.len() as int
        }
    }

    /// Anchor sizes of level `l`.
    pub open spec fn sizes(&self, l: int) -> Seq<usize> {
        self.min_sizes@[l]@
    }

    pub open spec fn well_formed(&self) -> bool {
        forall|l: int| 0 <= l < self.levels() ==> #[trigger] self.steps@[l] > 0
    }

    /// Number of anchors of level `l` on a `width` x `height` input.
    pub open spec fn level_count(&self, l: int, width: nat, height: nat) -> int {
        let step = self.steps@[l] as nat;
        (height / step) as int * (width / step) as int * self.sizes(l).len()
    }

    /// Position of the first anchor of level `l`.
    pub open spec fn level_start(&self, l: int, width: nat, height: nat) -> int
        decreases l,
    {
        if l <= 0 {
            0
        } else {
            self.level_start(l - 1, width, height) + self.level_count(l - 1, width, height)
        }
    }

    /// The anchor of level `l` in cell (`row`, `col`) with the `k`-th size.
    pub open spec fn anchor(&self, l: int, row: int, col: int, k: int) -> AnchorCell {
        AnchorCell {
            col: col as usize,
            row: row as usize,
            step: self.steps@[l],
            min_size: self.sizes(l)[k],
        }
    }
}

/// Offset, within its level, of the anchor in cell (`row`, `col`) with the `k`-th of `m` sizes
/// on a feature map `cols` wide.
pub open spec fn grid_offset(cols: int, m: int, row: int, col: int, k: int) -> int {
    (row * cols + col) * m + k
}

/// The entry of `s` that holds that anchor when its level starts at `base`.
pub open spec fn grid_slot(s: Seq<AnchorCell>, base: int, cols: int, m: int, row: int, col: int, k: int) -> AnchorCell {
    s[base + grid_offset(cols, m, row, col, k)]
}

proof fn lemma_grid_offset_bounds(rows: int, cols: int, m: int, row: int, col: int, k: int)
    requires
        0 <= row < rows,
        0 <= col < cols,
        0 <= k < m,
    ensures
        0 <= grid_offset(cols, m, row, col, k) < rows * cols * m,
{
    assert(0 <= (row * cols + col) * m + k) by (nonlinear_arith)
        requires 0 <= row, 0 <= col, 0 <= k, 0 <= m, 0 <= cols;
    assert((row * cols + col) * m + k < rows * cols * m) by (nonlinear_arith)
        requires 0 <= row < rows, 0 <= col < cols, 0 <= k < m;
}

/// Anchors of level `l`, appended to `out`.
fn push_level(out: &mut Vec<AnchorCell>, layout: &AnchorLayout, l: usize, width: usize, height: usize)
    requires
        layout.well_formed(),
        0 <= l < layout.levels(),
    ensures
        final(out)@.len() == old(out)@.len() + layout.level_count(l as int, width as nat, height as nat),
        forall|i: int| 0 <= i < old(out)@.len() ==> final(out)@[i] == old(out)@[i],
        forall|row: int, col: int, k: int|
            0 <= row < height / layout.steps@[l as int] && 0 <= col < width / layout.steps@[l as int]
                && 0 <= k < layout.sizes(l as int).len() ==> #[trigger] grid_slot(
                final(out)@,
                old(out)@.len() as int,
                (width / layout.steps@[l as int]) as int,
                layout.sizes(l as int).len() as int,
                row,
                col,
                k,
            ) == layout.anchor(l as int, row, col, k),
{
    let step = layout.steps[l];
    let sizes = &layout.min_sizes[l];
    let cols = width / step;
    let rows = height / step;
    let m = sizes.len();
    let ghost base = old(out)@.len() as int;
    let ghost start = old(out)@;
    let mut row: usize = 0;
    assert(row * cols * m == 0) by (nonlinear_arith)
        requires row == 0;
    while row < rows
        invariant
            row <= rows,
            l < layout.steps@.len(),
            l < layout.min_sizes@.len(),
            step == layout.steps@[l as int],
            sizes@ == layout.sizes(l as int),
            m == sizes@.len(),
            cols == width / step,
            rows == height / step,
            out@.len() == base + row * cols * m,
            start.len() == base,
            base >= 0,
            forall|i: int| 0 <= i < base ==> out@[i] == start[i],
            forall|r: int, c: int, k: int|
                0 <= r < row && 0 <= c < cols && 0 <= k < m ==> #[trigger] grid_slot(
                    out@, base, cols as int, m as int, r, c, k,
                ) == layout.anchor(l as int, r, c, k),
        decreases rows - row,
    {
        let mut col: usize = 0;
        while col < cols
            invariant
                row < rows,
                col <= cols,
                l < layout.steps@.len(),
                l < layout.min_sizes@.len(),
                step == layout.steps@[l as int],
                sizes@ == layout.sizes(l as int),
                m == sizes@.len(),
                cols == width / step,
                rows == height / step,
                out@.len() == base + (row * cols + col) * m,
                start.len() == base,
            base >= 0,
            forall|i: int| 0 <= i < base ==> out@[i] == start[i],
                forall|r: int, c: int, k: int|
                    0 <= r < row && 0 <= c < cols && 0 <= k < m ==> #[trigger] grid_slot(
                        out@, base, cols as int, m as int, r, c, k,
                    ) == layout.anchor(l as int, r, c, k),
                forall|c: int, k: int|
                    0 <= c < col && 0 <= k < m ==> #[trigger] grid_slot(
                        out@, base, cols as int, m as int, row as int, c, k,
                    ) == layout.anchor(l as int, row as int, c, k),
            decreases cols - col,
        {
            let mut k: usize = 0;
            while k < m
                invariant
                    row < rows,
                    col < cols,
                    k <= m,
                    l < layout.steps@.len(),
                    l < layout.min_sizes@.len(),
                    step == layout.steps@[l as int],
                    sizes@ == layout.sizes(l as int),
                    m == sizes@.len(),
                    cols == width / step,
                    rows == height / step,
                    out@.len() == base + (row * cols + col) * m + k,
                    start.len() == base,
            base >= 0,
            forall|i: int| 0 <= i < base ==> out@[i] == start[i],
                    forall|r: int, c: int, kk: int|
                        0 <= r < row && 0 <= c < cols && 0 <= kk < m ==> #[trigger] grid_slot(
                            out@, base, cols as int, m as int, r, c, kk,
                        ) == layout.anchor(l as int, r, c, kk),
                    forall|c: int, kk: int|
                        0 <= c < col && 0 <= kk < m ==> #[trigger] grid_slot(
                            out@, base, cols as int, m as int, row as int, c, kk,
                        ) == layout.anchor(l as int, row as int, c, kk),
                    forall|kk: int|
                        0 <= kk < k ==> #[trigger] grid_slot(
                            out@, base, cols as int, m as int, row as int, col as int, kk,
                        ) == layout.anchor(l as int, row as int, col as int, kk),
                decreases m - k,
            {
                let ghost before = out@;
                out.push(AnchorCell { col, row, step, min_size: sizes[k] });
                proof {
                    assert forall|r: int, c: int, kk: int|
                        0 <= r < row && 0 <= c < cols && 0 <= kk < m implies #[trigger] grid_slot(
                            out@, base, cols as int, m as int, r, c, kk,
                        ) == layout.anchor(l as int, r, c, kk) by {
                        lemma_grid_offset_bounds(row as int, cols as int, m as int, r, c, kk);
                        assert(row * cols * m <= (row * cols + col) * m) by (nonlinear_arith)
                            requires 0 <= col, 0 <= m, 0 <= row, 0 <= cols;
                        let idx = base + grid_offset(cols as int, m as int, r, c, kk);
                        assert(idx < before.len());
                        assert(out@[idx] == before[idx]);
                        assert(grid_slot(before, base, cols as int, m as int, r, c, kk) == layout.anchor(l as int, r, c, kk));
                    }
                    assert forall|c: int, kk: int|
                        0 <= c < col && 0 <= kk < m implies #[trigger] grid_slot(
                            out@, base, cols as int, m as int, row as int, c, kk,
                        ) == layout.anchor(l as int, row as int, c, kk) by {
                        assert(grid_offset(cols as int, m as int, row as int, c, kk) < (row * cols + col) * m) by (nonlinear_arith)
                            requires 0 <= c < col, 0 <= kk < m;
                        let idx = base + grid_offset(cols as int, m as int, row as int, c, kk);
                        assert(0 <= grid_offset(cols as int, m as int, row as int, c, kk)) by (nonlinear_arith)
                            requires 0 <= c, 0 <= kk, 0 <= row, 0 <= cols, 0 <= m;
                        assert(idx < before.len());
                        assert(out@[idx] == before[idx]);
                        assert(grid_slot(before, base, cols as int, m as int, row as int, c, kk) == layout.anchor(l as int, row as int, c, kk));
                    }
                    assert forall|kk: int|
                        0 <= kk < k + 1 implies #[trigger] grid_slot(
                            out@, base, cols as int, m as int, row as int, col as int, kk,
                        ) == layout.anchor(l as int, row as int, col as int, kk) by {
                        if kk < k {
                            assert(grid_slot(before, base, cols as int, m as int, row as int, col as int, kk) == layout.anchor(l as int, row as int, col as int, kk));
                        }
                    }
                }
                k = k + 1;
            }
            proof {
                assert((row * cols + col) * m + m == (row * cols + (col + 1)) * m) by (nonlinear_arith);
            }
            col = col + 1;
        }
        proof {
            assert((row * cols + cols) * m == (row + 1) * cols * m) by (nonlinear_arith);
        }
        row = row + 1;
    }
}

/// All anchors of a `width` x `height` detector input, level after level.
pub fn prior_anchors(layout: &AnchorLayout, width: usize, height: usize) -> (r: Vec<AnchorCell>)
    requires
        layout.well_formed(),
    ensures
        r@.len() == layout.level_start(layout.levels(), width as nat, height as nat),
        forall|l: int, row: int, col: int, k: int|
            0 <= l < layout.levels() && 0 <= row < height / layout.steps@[l] && 0 <= col < width
                / layout.steps@[l] && 0 <= k < layout.sizes(l).len() ==> #[trigger] grid_slot(
                r@,
                layout.level_start(l, width as nat, height as nat),
                (width / layout.steps@[l]) as int,
                layout.sizes(l).len() as int,
                row,
                col,
                k,
            ) == layout.anchor(l, row, col, k),
{
    let levels = if layout.steps.len() <= layout.min_sizes.len() {
        layout.steps.len()
    } else {
        layout.min_sizes.len()
    };
    let mut out: Vec<AnchorCell> = Vec::new();
    let mut l: usize = 0;
    while l < levels
        invariant
            levels == layout.levels(),
            layout.well_formed(),
            l <= levels,
            out@.len() == layout.level_start(l as int, width as nat, height as nat),
            forall|ll: int, row: int, col: int, k: int|
                0 <= ll < l && 0 <= row < height / layout.steps@[ll] && 0 <= col < width
                    / layout.steps@[ll] && 0 <= k < layout.sizes(ll).len() ==> #[trigger] grid_slot(
                    out@,
                    layout.level_start(ll, width as nat, height as nat),
                    (width / layout.steps@[ll]) as int,
                    layout.sizes(ll).len() as int,
                    row,
                    col,
                    k,
                ) == layout.anchor(ll, row, col, k),
        decreases levels - l,
    {
        let ghost before = out@;
        push_level(&mut out, layout, l, width, height);
        proof {
            assert forall|ll: int, row: int, col: int, k: int|
                0 <= ll < l + 1 && 0 <= row < height / layout.steps@[ll] && 0 <= col < width
                    / layout.steps@[ll] && 0 <= k < layout.sizes(ll).len() implies #[trigger] grid_slot(
                    out@,
                    layout.level_start(ll, width as nat, height as nat),
                    (width / layout.steps@[ll]) as int,
                    layout.sizes(ll).len() as int,
                    row,
                    col,
                    k,
                ) == layout.anchor(ll, row, col, k) by {
                if ll < l {
                    let cols = (width / layout.steps@[ll]) as int;
                    let m = layout.sizes(ll).len() as int;
                    let rows = (height / layout.steps@[ll]) as int;
                    lemma_grid_offset_bounds(rows, cols, m, row, col, k);
                    lemma_level_start_grows(layout, ll + 1, l as int, width as nat, height as nat);
                    lemma_level_start_grows(layout, 0, ll, width as nat, height as nat);
                    assert(rows * cols * m == layout.level_count(ll, width as nat, height as nat));
                    let idx = layout.level_start(ll, width as nat, height as nat) + grid_offset(cols, m, row, col, k);
                    assert(idx < before.len());
                    assert(out@[idx] == before[idx]);
                    assert(grid_slot(before, layout.level_start(ll, width as nat, height as nat), cols, m, row, col, k)
                        == layout.anchor(ll, row, col, k));
                }
            }
        }
        l = l + 1;
    }
    out
}

proof fn lemma_level_start_grows(layout: &AnchorLayout, a: int, b: int, width: nat, height: nat)
    requires
        layout.well_formed(),
        0 <= a <= b <= layout.levels(),
    ensures
        layout.level_start(a, width, height) <= layout.level_start(b, width, height),
    decreases b - a,
{
    if a < b {
        lemma_level_start_grows(layout, a, b - 1, width, height);
        let step = layout.steps@[b - 1] as nat;
        assert(step > 0);
        let x = (height / step) as int;
        let y = (width / step) as int;
        assert(x >= 0) by (nonlinear_arith)
            requires x == height / step, step > 0;
        assert(y >= 0) by (nonlinear_arith)
            requires y == width / step, step > 0;
        let z = layout.sizes(b - 1).len() as int;
        assert(x * y * z >= 0) by (nonlinear_arith)
            requires x >= 0, y >= 0, z >= 0;
    }
}

impl AnchorLayout {
    /// The face detector's two levels: strides 8 and 16, with anchor sizes
    /// 8 and 11 on the first and 14, 19, 26, 38, 64 and 149 on the second.
    pub fn detector_default() -> (r: AnchorLayout)
        ensures
            r.steps@ == seq![8usize, 16],
            r.min_sizes@.len() == 2,
            r.sizes(0) == seq![8usize, 11],
            r.sizes(1) == seq![14usize, 19, 26, 38, 64, 149],
            r.well_formed(),
    {
        AnchorLayout {
            min_sizes: vec![vec![8, 11], vec![14, 19, 26, 38, 64, 149]],
            steps: vec![8, 16],
        }
    }
}

} // verus!
