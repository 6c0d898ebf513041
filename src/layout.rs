//! Grid geometry of the collage: a square grid of covers on the left and a
//! column of legend rows on the right.

use vstd::prelude::*;

verus! {

/// Number of album fetches allowed in flight at once.
pub const CONCURRENT_REQUESTS: usize = 100;

/// Side of one cover cell, in pixels.
pub const IMAGE_LENGTH: u32 = 300;

/// Blank border around the grid, in pixels.
pub const MARGIN: u32 = 50;

/// Vertical gap between two legend rows, in pixels.
pub const WORD_MARGIN: u32 = 2;

/// The fixed parameters of a chart, threaded through instead of globals.
#[derive(Clone, Copy, Debug, PartialEq, Eq, Structural)]
pub struct ChartConfig {
    pub concurrency: usize,
    pub cover_length: u32,
    pub margin: u32,
    pub word_margin: u32,
}

impl ChartConfig {
    /// The configuration the chart is normally drawn with.
    pub fn standard() -> (r: ChartConfig)
        ensures
            r.concurrency == CONCURRENT_REQUESTS,
            r.cover_length == IMAGE_LENGTH,
            r.margin == MARGIN,
            r.word_margin == WORD_MARGIN,
    {
        ChartConfig {
            concurrency: CONCURRENT_REQUESTS,
            cover_length: IMAGE_LENGTH,
            margin: MARGIN,
            word_margin: WORD_MARGIN,
        }
    }
}

/// Geometry of one collage.
#[derive(Clone, Copy, Debug, PartialEq, Eq, Structural)]
pub struct GridGeometry {
    /// Number of albums in the chart.
    pub count: u32,
    /// Cells per row and per column.
    pub side: u32,
    pub cover_length: u32,
    pub margin: u32,
    pub width: u32,
    pub height: u32,
    /// Height of one legend row, which is also the glyph size.
    pub row_height: u32,
    /// Gap between legend rows.
    pub row_spacing: u32,
    /// Left edge of the legend column.
    pub text_x: u32,
}

impl GridGeometry {
    /// The relations between the fields that every planned geometry keeps.
    pub open spec fn wf(&self) -> bool {
        &&& self.count >= 1
        &&& self.side * self.side <= self.count
        &&& self.height == 2 * self.margin + self.cover_length * self.side
        &&& self.text_x == self.height
        &&& self.width >= self.height
        &&& self.row_height >= 1
        &&& self.row_height * self.count + self.row_spacing * (self.count - 1)
            <= self.cover_length * self.side
    }

    /// Top-left corner of the grid cell of the album ranked `i` (from 0),
    /// filled row by row.
    pub fn cell_origin(&self, i: u32) -> (r: (u32, u32))
        requires
            self.wf(),
            i < self.side * self.side,
        ensures
            r.0 == self.margin + self.cover_length * (i % self.side),
            r.1 == self.margin + self.cover_length * (i / self.side),
            r.0 + self.cover_length <= self.margin + self.cover_length * self.side,
            r.1 + self.cover_length <= self.margin + self.cover_length * self.side,
    {
        let s = self.side;
        let p = self.cover_length;
        proof {
            assert(s > 0) by (nonlinear_arith)
                requires i < s * s, i >= 0, s >= 0;
            assert(i / s < s) by (nonlinear_arith)
                requires i < s * s, s > 0, i >= 0;
            assert(i % s < s) by (nonlinear_arith)
                requires s > 0;
            assert(p * (i % s) + p <= p * s) by (nonlinear_arith)
                requires i % s < s, p >= 0;
            assert(p * (i / s) + p <= p * s) by (nonlinear_arith)
                requires i / s < s, p >= 0;
        }
        (self.margin + p * (i % s), self.margin + p * (i / s))
    }

    /// Where the legend line of the album ranked `i` (from 0) starts.
    pub fn text_origin(&self, i: u32) -> (r: (u32, u32))
        requires
            self.wf(),
            i < self.count,
        ensures
            r.0 == self.text_x,
            r.1 == self.margin + i * (self.row_height + self.row_spacing),
            r.1 + self.row_height <= self.margin + self.cover_length * self.side,
    {
        let h = self.row_height as u64;
        let g = self.row_spacing as u64;
        let c = self.count as u64;
        proof {
            assert(i * (h + g) + h <= h * c + g * (c - 1)) by (nonlinear_arith)
                requires 0 <= i < c, h >= 0, g >= 0;
        }
        let y = self.margin as u64 + i as u64 * (h + g);
        (self.text_x, y as u32)
    }
}

/// Why no geometry exists for a chart.
#[derive(Clone, Copy, Debug, PartialEq, Eq, Structural)]
pub enum LayoutError {
    /// The chart holds no album.
    NoAlbums,
    /// The legend rows would be less than one pixel high.
    RowTooShort,
    /// The canvas would not fit in 32-bit dimensions.
    TooLarge,
}

/// The largest `s` with `s * s <= m`.
pub open spec fn floor_sqrt(m: nat) -> nat
    decreases m,
{
    if m == 0 {
        0
    } else {
        let s = floor_sqrt((m - 1) as nat);
        if (s + 1) * (s + 1) <= m {
            s + 1
        } else {
            s
        }
    }
}

pub open spec fn is_floor_sqrt(s: int, m: int) -> bool {
    0 <= s && s * s <= m && m < (s + 1) * (s + 1)
}

pub proof fn lemma_floor_sqrt(m: nat)
    ensures
        is_floor_sqrt(floor_sqrt(m) as int, m as int),
    decreases m,
{
    if m > 0 {
        lemma_floor_sqrt((m - 1) as nat);
        let s = floor_sqrt((m - 1) as nat) as int;
        assert((s + 1) * (s + 1) == s * s + 2 * s + 1) by (nonlinear_arith);
        assert((s + 2) * (s + 2) == (s + 1) * (s + 1) + 2 * s + 3) by (nonlinear_arith);
        assert(s * s >= 0) by (nonlinear_arith)
            requires s >= 0;
    }
}

pub proof fn lemma_floor_sqrt_unique(s: int, t: int, m: int)
    requires
        is_floor_sqrt(s, m),
        is_floor_sqrt(t, m),
    ensures
        s == t,
{
    if s < t {
        assert((s + 1) * (s + 1) <= t * t) by (nonlinear_arith)
            requires 0 <= s + 1 <= t;
    } else if t < s {
        assert((t + 1) * (t + 1) <= s * s) by (nonlinear_arith)
            requires 0 <= t + 1 <= s;
    }
}

/// Vertical extent of the grid in pixels.
pub open spec fn grid_span(m: nat, cfg: ChartConfig) -> int {
    cfg.cover_length * floor_sqrt(m)
}

/// Pixels left for the legend rows once the gaps between them are taken out.
pub open spec fn legend_span(m: nat, cfg: ChartConfig) -> int {
    grid_span(m, cfg) - cfg.word_margin * (m - 1)
}

pub open spec fn spec_row_height(m: nat, cfg: ChartConfig) -> int {
    legend_span(m, cfg) / (m as int)
}

pub open spec fn spec_height(m: nat, cfg: ChartConfig) -> int {
    2 * cfg.margin + grid_span(m, cfg)
}

pub open spec fn spec_width(m: nat, l: nat, cfg: ChartConfig) -> int {
    spec_height(m, cfg) + cfg.margin + spec_row_height(m, cfg) * l
}

/// The geometry for `m` albums whose longest name is `l` long, or why there is none.
pub open spec fn spec_plan_layout(m: nat, l: nat, cfg: ChartConfig) -> Result<GridGeometry, LayoutError> {
    if m == 0 {
        Err(LayoutError::NoAlbums)
    } else if legend_span(m, cfg) < m {
        Err(LayoutError::RowTooShort)
    } else if spec_width(m, l, cfg) > u32::MAX {
        Err(LayoutError::TooLarge)
    } else {
        Ok(
            GridGeometry {
                count: m as u32,
                side: floor_sqrt(m) as u32,
                cover_length: cfg.cover_length,
                margin: cfg.margin,
                width: spec_width(m, l, cfg) as u32,
                height: spec_height(m, cfg) as u32,
                row_height: spec_row_height(m, cfg) as u32,
                row_spacing: cfg.word_margin,
                text_x: spec_height(m, cfg) as u32,
            },
        )
    }
}

/// The geometry depends on the album count, the longest name, the cover
/// length, the margin and the row gap alone: two plans from equal values of
/// these are equal, whatever else the configurations hold.
pub proof fn lemma_layout_deterministic(m: nat, l: nat, a: ChartConfig, b: ChartConfig)
    requires
        a.cover_length == b.cover_length,
        a.margin == b.margin,
        a.word_margin == b.word_margin,
    ensures
        spec_plan_layout(m, l, a) == spec_plan_layout(m, l, b),
{
}

/// Side of the square grid for `m` albums: the largest `s` with `s * s <= m`.
pub fn grid_side(m: u64) -> (s: u64)
    ensures
        s == floor_sqrt(m as nat),
{
    let mut lo: u64 = 0;
    let mut hi: u64 = 0x1_0000_0000;
    while lo + 1 < hi
        invariant
            lo < hi <= 0x1_0000_0000,
            lo * lo <= m,
            m < hi * hi,
        decreases hi - lo,
    {
        let mid: u64 = lo + (hi - lo) / 2;
        assert(mid * mid < 0x1_0000_0000 * 0x1_0000_0000) by (nonlinear_arith)
            requires mid < 0x1_0000_0000;
        if mid * mid <= m {
            lo = mid;
        } else {
            hi = mid;
        }
    }
    proof {
        lemma_floor_sqrt(m as nat);
        lemma_floor_sqrt_unique(lo as int, floor_sqrt(m as nat) as int, m as int);
    }
    lo
}


/// Plans the collage for `count` albums whose longest name has `max_name_len`
/// characters: the grid side is the integer square root of the count, the
/// legend rows share the grid's height, and the legend column is as wide as a
/// row is high times the longest name.
pub fn plan_layout(count: usize, max_name_len: usize, cfg: ChartConfig) -> (r: Result<GridGeometry, LayoutError>)
    ensures
        r == spec_plan_layout(count as nat, max_name_len as nat, cfg),
        r is Ok ==> r->Ok_0.wf() && r->Ok_0.count == count,
{
    if count == 0 {
        return Err(LayoutError::NoAlbums);
    }
    let m = count as u128;
    let side = grid_side(count as u64) as u128;
    proof {
        lemma_floor_sqrt(count as nat);
        assert(side * side <= m);
        assert(side <= m) by (nonlinear_arith)
            requires side * side <= m, 0 <= side;
    }
    let p = cfg.cover_length as u128;
    assert(p * side <= 0xffff_ffff * 0xffff_ffff_ffff_ffff) by (nonlinear_arith)
        requires p <= 0xffff_ffff, side <= 0xffff_ffff_ffff_ffff;
    let span = p * side;
    assert(cfg.word_margin * (m - 1) <= 0xffff_ffff * 0xffff_ffff_ffff_ffff) by (nonlinear_arith)
        requires cfg.word_margin <= 0xffff_ffff, 0 <= m - 1 <= 0xffff_ffff_ffff_ffff;
    let gaps = cfg.word_margin as u128 * (m - 1);
    if span < gaps + m {
        return Err(LayoutError::RowTooShort);
    }
    let row_height = (span - gaps) / m;
    let margin = cfg.margin as u128;
    let height = 2 * margin + span;
    assert(row_height as int <= span as int) by (nonlinear_arith)
        requires row_height as int == (span - gaps) as int / m as int, m >= 1, gaps >= 0, span >= gaps;
    let text_width: u128 = if max_name_len == 0 {
        assert(row_height * max_name_len == 0);
        0
    } else if row_height > 0xffff_ffff {
        assert(row_height * max_name_len >= row_height) by (nonlinear_arith)
            requires max_name_len >= 1, row_height >= 0;
        return Err(LayoutError::TooLarge);
    } else {
        assert(row_height * max_name_len <= 0xffff_ffff * 0xffff_ffff_ffff_ffff) by (nonlinear_arith)
            requires row_height <= 0xffff_ffff, 0 <= max_name_len <= 0xffff_ffff_ffff_ffff;
        row_height * max_name_len as u128
    };
    let width = height + margin + text_width;
    if width > 0xffff_ffff {
        return Err(LayoutError::TooLarge);
    }
    proof {
        assert(row_height * m <= span - gaps) by (nonlinear_arith)
            requires row_height as int == (span - gaps) as int / m as int, m >= 1, span >= gaps;
        assert(row_height >= 1) by (nonlinear_arith)
            requires row_height as int == (span - gaps) as int / m as int, m >= 1, span - gaps >= m;
        assert(m * (row_height as int) == row_height * m) by (nonlinear_arith);
    }
    Ok(GridGeometry {
        count: count as u32,
        side: side as u32,
        cover_length: cfg.cover_length,
        margin: cfg.margin,
        width: width as u32,
        height: height as u32,
        row_height: row_height as u32,
        row_spacing: cfg.word_margin,
        text_x: height as u32,
    })
}

} // verus!
