use album_chart::aggregator::{FetchResult, ResultAggregator};
use album_chart::compose::{compose_chart, legend_line, CoverArt};
use album_chart::layout::{plan_layout, ChartConfig, LayoutError};
use album_chart::raster::{cover_image, render_chart, render_covers, RenderError};
use album_chart::types::{Album, Artist, Chart};
use image::{DynamicImage, GenericImageView, ImageOutputFormat};

fn png_bytes(w: u32, h: u32) -> Vec<u8> {
    let mut out = Vec::new();
    DynamicImage::new_rgba8(w, h).write_to(&mut out, ImageOutputFormat::Png).unwrap();
    out
}

fn named(name: &str) -> Album {
    Album {
        artist: Artist { mbid: String::new(), name: "X".to_string() },
        mbid: String::new(),
        playcount: 0,
        name: name.to_string(),
        image_url: String::new(),
        tracks: 0,
    }
}

#[test]
fn empty_bytes_give_placeholder() {
    let (img, art) = cover_image(&[], 300);
    assert_eq!(art, CoverArt::Placeholder);
    assert_eq!((img.width(), img.height()), (300, 300));
    assert_eq!(img.into_image().dimensions(), (300, 300));
}

#[test]
fn garbage_bytes_give_placeholder() {
    let (_, art) = cover_image(&[1, 2, 3, 4, 5], 300);
    assert_eq!(art, CoverArt::Placeholder);
}

#[test]
fn png_bytes_decode_and_scale() {
    let (img, art) = cover_image(&png_bytes(2, 2), 300);
    assert_eq!(art, CoverArt::Payload);
    assert_eq!((img.width(), img.height()), (300, 300));
    let (wide, _) = cover_image(&png_bytes(4, 2), 300);
    assert_eq!((wide.width(), wide.height()), (300, 150));
    assert_eq!(wide.into_image().dimensions(), (300, 150));
}

#[test]
fn rendered_canvas_has_planned_size() {
    let chart = Chart { albums: (0..5).map(|i| named(&format!("A{}", i))).collect() };
    let mut agg = ResultAggregator::new();
    agg.insert("A0".to_string(), FetchResult { track_count: 1, image: png_bytes(4, 4) });
    agg.insert("A1".to_string(), FetchResult { track_count: 1, image: vec![9, 9, 9] });
    let plan = compose_chart(&chart, &agg, ChartConfig::standard()).unwrap();
    let canvas = render_covers(&plan, &chart, &agg).unwrap();
    assert_eq!((canvas.width(), canvas.height()), (plan.width, plan.height));
    let image = canvas.into_image();
    assert_eq!(image.dimensions(), (700 + 50 + 118 * 2, 700));
    assert_eq!(image.get_pixel(plan.width - 1, 0).0, [0, 0, 0, 255]);
}

#[test]
fn render_chart_matches_layout() {
    let chart = Chart { albums: (0..10).map(|i| named(&format!("Album{}", i))).collect() };
    let mut agg = ResultAggregator::new();
    agg.insert("Album0".to_string(), FetchResult { track_count: 1, image: png_bytes(3, 3) });
    let g = plan_layout(10, 6, ChartConfig::standard()).unwrap();
    let (plan, canvas) = render_chart(&chart, &agg, ChartConfig::standard()).unwrap();
    assert_eq!(canvas.into_image().dimensions(), (g.width, g.height));
    assert_eq!(plan.cells.len(), 9);
    assert_eq!(plan.lines.len(), 10);
    let empty = Chart { albums: vec![] };
    assert!(matches!(render_chart(&empty, &agg, ChartConfig::standard()), Err(LayoutError::NoAlbums)));
}

#[test]
fn cells_outside_the_canvas_are_refused() {
    let chart = Chart { albums: vec![named("A0")] };
    let agg = ResultAggregator::new();
    let mut plan = compose_chart(&chart, &agg, ChartConfig::standard()).unwrap();
    plan.cells[0].x = u32::MAX - 10;
    assert!(matches!(render_covers(&plan, &chart, &agg), Err(RenderError::Placement)));
    let mut plan = compose_chart(&chart, &agg, ChartConfig::standard()).unwrap();
    plan.cover_length = 0;
    assert!(matches!(render_covers(&plan, &chart, &agg), Err(RenderError::Placement)));
}

#[test]
fn legend_line_format() {
    assert_eq!(legend_line(1, "Artist", "Album"), "1. Artist - Album");
    assert_eq!(legend_line(0, "", ""), "0.  - ");
    assert_eq!(legend_line(4_294_967_295, "é", "ü"), "4294967295. é - ü");
    assert_eq!(legend_line(120, "a", "b"), "120. a - b");
}
