//! Cover pixels: decoding the fetched bytes, scaling them to a cell and
//! pasting them onto the canvas, with the `image` crate.

use vstd::prelude::*;
use image::{imageops::FilterType, DynamicImage, GenericImage, GenericImageView, Rgba, RgbaImage};
use crate::aggregator::ResultAggregator;
use crate::compose::{compose_chart, plans, CompositionPlan, CoverArt};
use crate::layout::{spec_plan_layout, ChartConfig, GridGeometry, LayoutError};
use crate::types::max_name_len;
use crate::types::Chart;

verus! {

#[verifier::external_type_specification]
#[verifier::external_body]
pub struct ExDynamicImage(DynamicImage);

/// Colour of the canvas behind the covers: opaque black.
pub const BACKGROUND: [u8; 4] = [0u8, 0u8, 0u8, 255u8];

/// An image together with its size, which only the functions that make the
/// image set.
pub struct Picture {
    image: DynamicImage,
    width: u32,
    height: u32,
}

impl Picture {
    pub closed spec fn spec_width(&self) -> nat {
        self.width as nat
    }

    pub closed spec fn spec_height(&self) -> nat {
        self.height as nat
    }

    pub fn width(&self) -> (r: u32)
        ensures
            r == self.spec_width(),
    {
        self.width
    }

    pub fn height(&self) -> (r: u32)
        ensures
            r == self.spec_height(),
    {
        self.height
    }

    /// The image itself, for drawing on or saving.
    pub fn into_image(self) -> DynamicImage {
        self.image
    }
}

/// Whether `image::load_from_memory` decodes these bytes; it depends on the
/// bytes alone.
pub uninterp spec fn decodes(bytes: Seq<u8>) -> bool;

/// Relies on `image::load_from_memory`: it guesses the format from the first
/// bytes, and no known signature is a prefix of an empty buffer, so empty
/// bytes never decode.
#[verifier::external_body]
fn decode(bytes: &[u8]) -> (r: Option<Picture>)
    ensures
        r is Some <==> decodes(bytes@),
        bytes@.len() == 0 ==> r is None,
{
    let image = image::load_from_memory(bytes).ok()?;
    Some(Picture { width: image.width(), height: image.height(), image })
}

/// Relies on `DynamicImage::new_rgba8`: a transparent image of exactly
/// `len` by `len` pixels.
#[verifier::external_body]
fn blank_image(len: u32) -> (r: Picture)
    ensures
        r.spec_width() == len,
        r.spec_height() == len,
{
    Picture { image: DynamicImage::new_rgba8(len, len), width: len, height: len }
}

/// Relies on `DynamicImage::resize` with the triangle filter: the image scaled
/// to fit a `len` by `len` square keeping its aspect ratio, so neither side
/// exceeds `len` (`resize_dimensions` without fill). It divides by a side of
/// the image, hence the sizes required.
#[verifier::external_body]
fn scale(img: &Picture, len: u32) -> (r: Picture)
    requires
        len >= 1,
        img.spec_width() >= 1,
        img.spec_height() >= 1,
    ensures
        r.spec_width() <= len,
        r.spec_height() <= len,
{
    let image = img.image.resize(len, len, FilterType::Triangle);
    Picture { width: image.width(), height: image.height(), image }
}

/// Relies on `ImageBuffer::from_pixel`: a `width` by `height` image with
/// every pixel set to `rgba`.
#[verifier::external_body]
fn filled_canvas(width: u32, height: u32, rgba: [u8; 4]) -> (r: Picture)
    ensures
        r.spec_width() == width,
        r.spec_height() == height,
{
    Picture { image: DynamicImage::ImageRgba8(RgbaImage::from_pixel(width, height, Rgba(rgba))), width, height }
}

/// Relies on `GenericImage::copy_from`: it fails only when `img` would reach
/// past the canvas, which the requirement rules out (without overflow, as
/// the sums fit the canvas), and it leaves the canvas's size as it was.
#[verifier::external_body]
fn paste(canvas: &mut Picture, img: &Picture, x: u32, y: u32)
    requires
        x + img.spec_width() <= old(canvas).spec_width(),
        y + img.spec_height() <= old(canvas).spec_height(),
    ensures
        final(canvas).spec_width() == old(canvas).spec_width(),
        final(canvas).spec_height() == old(canvas).spec_height(),
{
    let _ = canvas.image.copy_from(&img.image, x, y);
}

/// The image for one cell, `len` pixels a side at most: the decoded bytes
/// scaled to the cell, or the blank `len` by `len` placeholder when the bytes
/// do not decode (empty bytes never do) or decode to an image with no pixel.
/// The second part says which of the two it is.
pub fn cover_image(bytes: &[u8], len: u32) -> (r: (Picture, CoverArt))
    requires
        len >= 1,
    ensures
        r.0.spec_width() <= len,
        r.0.spec_height() <= len,
        !decodes(bytes@) ==> r.1 == CoverArt::Placeholder,
        r.1 == CoverArt::Payload ==> decodes(bytes@),
        bytes@.len() == 0 ==> r.1 == CoverArt::Placeholder,
        r.1 == CoverArt::Placeholder ==> r.0.spec_width() == len && r.0.spec_height() == len,
{
    match decode(bytes) {
        Some(img) => {
            if img.width() >= 1 && img.height() >= 1 {
                (scale(&img, len), CoverArt::Payload)
            } else {
                (blank_image(len), CoverArt::Placeholder)
            }
        },
        None => (blank_image(len), CoverArt::Placeholder),
    }
}

/// Whether every cell of `plan` holds a full cover inside the canvas.
pub open spec fn cells_fit(plan: CompositionPlan) -> bool {
    &&& plan.cover_length >= 1
    &&& forall|i: int|
        0 <= i < plan.cells@.len() ==> plan.cells@[i].x + plan.cover_length <= plan.width
            && plan.cells@[i].y + plan.cover_length <= plan.height
}

/// Draws the canvas of `plan`, filled with the background, with every
/// planned cover in its cell. A cell planned with the placeholder gets the
/// placeholder without its bytes being read. Fails, drawing nothing, exactly
/// when some cell would not hold a full cover inside the canvas.
pub fn render_covers(plan: &CompositionPlan, chart: &Chart, store: &ResultAggregator) -> (r:
    Result<Picture, RenderError>)
    requires
        store.wf(),
        forall|i: int| 0 <= i < plan.cells@.len() ==> plan.cells@[i].rank < chart.albums@.len(),
    ensures
        r is Ok <==> cells_fit(*plan),
        r is Ok ==> r->Ok_0.spec_width() == plan.width && r->Ok_0.spec_height() == plan.height,
        r is Err ==> r == Err::<Picture, RenderError>(RenderError::Placement),
{
    let len = plan.cover_length;
    if len == 0 {
        return Err(RenderError::Placement);
    }
    let mut k: usize = 0;
    while k < plan.cells.len()
        invariant
            k <= plan.cells@.len(),
            len == plan.cover_length,
            forall|j: int|
                0 <= j < k ==> plan.cells@[j].x + plan.cover_length <= plan.width
                    && plan.cells@[j].y + plan.cover_length <= plan.height,
        decreases plan.cells@.len() - k,
    {
        let cell = plan.cells[k];
        if cell.x as u64 + len as u64 > plan.width as u64 || cell.y as u64 + len as u64
            > plan.height as u64 {
            assert(plan.cells@[k as int] == cell);
            return Err(RenderError::Placement);
        }
        k = k + 1;
    }
    let mut canvas = filled_canvas(plan.width, plan.height, BACKGROUND);
    let empty: Vec<u8> = Vec::new();
    let mut i: usize = 0;
    while i < plan.cells.len()
        invariant
            store.wf(),
            i <= plan.cells@.len(),
            len == plan.cover_length,
            len >= 1,
            cells_fit(*plan),
            canvas.spec_width() == plan.width,
            canvas.spec_height() == plan.height,
            forall|j: int| 0 <= j < plan.cells@.len() ==> plan.cells@[j].rank < chart.albums@.len(),
        decreases plan.cells@.len() - i,
    {
        let cell = plan.cells[i];
        let album = &chart.albums[cell.rank as usize];
        let bytes: &[u8] = match cell.art {
            CoverArt::Payload => match store.get(&album.name) {
                Some(found) => found.image.as_slice(),
                None => empty.as_slice(),
            },
            CoverArt::Placeholder => empty.as_slice(),
        };
        let (img, _) = cover_image(bytes, len);
        paste(&mut canvas, &img, cell.x, cell.y);
        i = i + 1;
    }
    Ok(canvas)
}

/// Every cell of a planned collage holds a full cover inside the canvas, so
/// drawing a planned collage never fails.
pub proof fn lemma_planned_cells_fit(
    p: CompositionPlan,
    chart: &Chart,
    store: Map<Seq<char>, (usize, Seq<u8>)>,
    g: GridGeometry,
)
    requires
        g.wf(),
        plans(p, chart, store, g),
    ensures
        cells_fit(p),
{
    let s = g.side as int;
    let c = g.cover_length as int;
    assert(c * s >= 1) by (nonlinear_arith)
        requires
            g.row_height * g.count + g.row_spacing * (g.count - 1) <= c * s,
            g.row_height >= 1,
            g.count >= 1,
            g.row_spacing >= 0;
    assert(c >= 1) by (nonlinear_arith)
        requires c * s >= 1, c >= 0, s >= 0;
    assert forall|i: int|
        0 <= i < p.cells@.len() implies p.cells@[i].x + p.cover_length <= p.width
            && p.cells@[i].y + p.cover_length <= p.height by {
        assert(i < s * s);
        assert(p.cells@[i].rank == i);
        assert(s > 0) by (nonlinear_arith)
            requires i < s * s, i >= 0, s >= 0;
        assert(i / s < s) by (nonlinear_arith)
            requires i < s * s, s > 0, i >= 0;
        assert(i % s < s) by (nonlinear_arith)
            requires s > 0;
        assert(c * (i % s) + c <= c * s) by (nonlinear_arith)
            requires i % s < s, c >= 0;
        assert(c * (i / s) + c <= c * s) by (nonlinear_arith)
            requires i / s < s, c >= 0;
    }
}

/// Plans the collage of `chart` with `cfg` and draws its covers: the plan,
/// whose legend lines are still to be drawn, and the canvas, exactly as large
/// as the layout computes. Fails exactly when the layout does.
pub fn render_chart(chart: &Chart, store: &ResultAggregator, cfg: ChartConfig) -> (r: Result<
    (CompositionPlan, Picture),
    LayoutError,
>)
    requires
        store.wf(),
    ensures
        match spec_plan_layout(chart.albums@.len(), max_name_len(chart.albums@), cfg) {
            Ok(g) => r is Ok && plans(r->Ok_0.0, chart, store@, g) && r->Ok_0.1.spec_width()
                == g.width && r->Ok_0.1.spec_height() == g.height,
            Err(e) => r is Err && r->Err_0 == e,
        },
{
    let plan = match compose_chart(chart, store, cfg) {
        Ok(plan) => plan,
        Err(e) => {
            return Err(e);
        },
    };
    proof {
        let g = spec_plan_layout(chart.albums@.len(), max_name_len(chart.albums@), cfg)->Ok_0;
        lemma_planned_cells_fit(plan, chart, store@, g);
    }
    match render_covers(&plan, chart, store) {
        Ok(canvas) => Ok((plan, canvas)),
        Err(_) => vstd::pervasive::unreached(),
    }
}

/// Why the covers could not be drawn.
#[derive(Clone, Copy, Debug, PartialEq, Eq, Structural)]
pub enum RenderError {
    /// A cover would not fit on the canvas at its cell.
    Placement,
}

} // verus!
