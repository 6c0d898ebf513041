use album_chart::aggregator::{collect_outcomes, fetch_result, FetchError, FetchOutcome, FetchResult, ResultAggregator};
use album_chart::compose::{compose_chart, plan_composition, CoverArt};
use album_chart::fetch::FetchWindow;
use album_chart::layout::{grid_side, plan_layout, ChartConfig, LayoutError};
use album_chart::types::{Album, AlbumInfo, Artist, Chart, Image, Track, TrackWrapper};

fn album(artist: &str, name: &str) -> Album {
    Album {
        artist: Artist { mbid: String::new(), name: artist.to_string() },
        mbid: String::new(),
        playcount: 1,
        name: name.to_string(),
        image_url: String::new(),
        tracks: 0,
    }
}

fn chart_of(n: usize) -> Chart {
    let mut albums = Vec::new();
    for i in 0..n {
        albums.push(album(&format!("Artist{}", i), &format!("Album{}", i)));
    }
    Chart { albums }
}

fn ok(name: &str, bytes: Vec<u8>) -> FetchOutcome {
    Ok((name.to_string(), FetchResult { track_count: 3, image: bytes }))
}

#[test]
fn grid_side_is_integer_square_root() {
    let cases = [(1u64, 1u64), (4, 2), (5, 2), (9, 3), (10, 3), (16, 4), (0, 0), (u64::MAX, 0xffff_ffff)];
    for (m, s) in cases {
        assert_eq!(grid_side(m), s, "m = {}", m);
    }
}

#[test]
fn layout_of_ten_albums() {
    let g = plan_layout(10, 5, ChartConfig::standard()).unwrap();
    assert_eq!(g.side, 3);
    assert_eq!(g.count, 10);
    assert_eq!(g.row_height, 88);
    assert_eq!(g.height, 1000);
    assert_eq!(g.width, 1490);
    assert_eq!(g.text_x, 1000);
    assert_eq!(g.row_spacing, 2);
}

#[test]
fn layout_of_one_album() {
    let g = plan_layout(1, 4, ChartConfig::standard()).unwrap();
    assert_eq!(g.side, 1);
    assert_eq!(g.row_height, 300);
    assert_eq!(g.height, 400);
    assert_eq!(g.width, 400 + 50 + 1200);
}

#[test]
fn layout_is_deterministic() {
    let a = plan_layout(16, 12, ChartConfig::standard()).unwrap();
    let mut other = ChartConfig::standard();
    other.concurrency = 2;
    let b = plan_layout(16, 12, other).unwrap();
    assert_eq!(a, b);
    assert_eq!(a, plan_layout(16, 12, ChartConfig::standard()).unwrap());
}

#[test]
fn layout_errors() {
    let cfg = ChartConfig::standard();
    assert_eq!(plan_layout(0, 3, cfg), Err(LayoutError::NoAlbums));
    assert_eq!(plan_layout(30000, 3, cfg), Err(LayoutError::RowTooShort));
    let mut big = cfg;
    big.cover_length = 4_294_967_200;
    assert_eq!(plan_layout(1, 0, big), Err(LayoutError::TooLarge));
    assert_eq!(plan_layout(1, 2, cfg.clone()).map(|g| g.width), Ok(400 + 50 + 600));
}

#[test]
fn cell_and_text_positions() {
    let g = plan_layout(10, 5, ChartConfig::standard()).unwrap();
    assert_eq!(g.cell_origin(0), (50, 50));
    assert_eq!(g.cell_origin(4), (350, 350));
    assert_eq!(g.cell_origin(8), (650, 650));
    assert_eq!(g.text_origin(0), (1000, 50));
    assert_eq!(g.text_origin(9), (1000, 50 + 9 * 90));
}

#[test]
fn aggregator_insert_get_overwrite() {
    let mut agg = ResultAggregator::new();
    assert_eq!(agg.len(), 0);
    assert!(agg.get(&"a".to_string()).is_none());
    agg.insert("a".to_string(), FetchResult { track_count: 1, image: vec![1] });
    agg.insert("b".to_string(), FetchResult { track_count: 2, image: vec![] });
    agg.insert("a".to_string(), FetchResult { track_count: 7, image: vec![9, 9] });
    assert_eq!(agg.len(), 2);
    let a = agg.get(&"a".to_string()).unwrap();
    assert_eq!(a.track_count, 7);
    assert_eq!(a.image, vec![9, 9]);
    assert_eq!(agg.get(&"b".to_string()).unwrap().track_count, 2);
}

#[test]
fn all_successes_are_recorded() {
    let outcomes: Vec<FetchOutcome> = (0..10).map(|i| ok(&format!("Album{}", i), vec![i as u8])).collect();
    let agg = collect_outcomes(outcomes);
    assert_eq!(agg.len(), 10);
    for i in 0..10 {
        assert_eq!(agg.get(&format!("Album{}", i)).unwrap().image, vec![i as u8]);
    }
}

#[test]
fn one_failure_spares_the_others() {
    let mut outcomes: Vec<FetchOutcome> = (0..10).map(|i| ok(&format!("Album{}", i), vec![1])).collect();
    outcomes[4] = Err(FetchError { message: "network down".to_string() });
    let agg = collect_outcomes(outcomes);
    assert_eq!(agg.len(), 9);
    assert!(agg.get(&"Album4".to_string()).is_none());
    for i in [0, 1, 2, 3, 5, 6, 7, 8, 9] {
        assert!(agg.get(&format!("Album{}", i)).is_some());
    }
}

#[test]
fn window_never_exceeds_bound() {
    let mut w = FetchWindow::new(10, 2);
    let mut started = Vec::new();
    let mut max_seen = 0;
    let mut step = 0;
    while !w.is_finished() {
        while let Some(i) = w.start_next() {
            started.push(i);
        }
        max_seen = max_seen.max(w.outstanding());
        assert!(w.outstanding() <= 2);
        // complete one or two, as latencies would have it
        w.complete();
        if step % 2 == 0 && w.outstanding() > 0 {
            w.complete();
        }
        step += 1;
    }
    assert_eq!(max_seen, 2);
    assert_eq!(started, (0..10).collect::<Vec<usize>>());
    assert_eq!(w.start_next(), None);
}

#[test]
fn cover_selection() {
    let info = AlbumInfo {
        name: "X".to_string(),
        images: vec![
            Image { url: "http://a/small.png".to_string(), size: "small".to_string() },
            Image { url: String::new(), size: String::new() },
            Image { url: "http://a/full.png".to_string(), size: String::new() },
            Image { url: "http://a/other.png".to_string(), size: String::new() },
        ],
        tracks: TrackWrapper { track: vec![Track {}, Track {}] },
    };
    assert_eq!(info.cover_index(), Some(2));
    assert_eq!(info.cover_url().unwrap(), "http://a/full.png");
    assert_eq!(info.track_count(), 2);
    let r = fetch_result(&info, vec![1, 2, 3]);
    assert_eq!(r.track_count, 2);
    assert_eq!(r.image, vec![1, 2, 3]);
}

#[test]
fn no_descriptor_gives_placeholder() {
    let info = AlbumInfo::default();
    assert_eq!(info.cover_index(), None);
    assert!(info.cover_url().is_none());
    let r = fetch_result(&info, vec![5, 5]);
    assert!(r.image.is_empty());
    let mut agg = ResultAggregator::new();
    agg.insert("Album0".to_string(), r);
    let plan = compose_chart(&chart_of(1), &agg, ChartConfig::standard()).unwrap();
    assert_eq!(plan.cells.len(), 1);
    assert_eq!(plan.cells[0].art, CoverArt::Placeholder);
}

#[test]
fn composition_of_ten_albums() {
    let chart = chart_of(10);
    let mut agg = ResultAggregator::new();
    for i in 0..10 {
        if i != 3 && i != 5 {
            agg.insert(format!("Album{}", i), FetchResult { track_count: 1, image: vec![7] });
        }
    }
    agg.insert("Album5".to_string(), FetchResult::empty());
    let plan = compose_chart(&chart, &agg, ChartConfig::standard()).unwrap();
    let g = plan_layout(10, chart.max_name_len(), ChartConfig::standard()).unwrap();
    assert_eq!((plan.width, plan.height), (g.width, g.height));
    assert_eq!(plan.cover_length, 300);
    assert_eq!(plan.cells.len(), 9);
    assert_eq!(plan.lines.len(), 10);
    assert_eq!(plan.cells[3].art, CoverArt::Placeholder);
    assert_eq!(plan.cells[5].art, CoverArt::Placeholder);
    assert_eq!(plan.cells[4].art, CoverArt::Payload);
    assert_eq!((plan.cells[7].x, plan.cells[7].y), (350, 650));
    assert_eq!(plan.lines[0].text, "1. Artist0 - Album0");
    assert_eq!(plan.lines[9].text, "10. Artist9 - Album9");
    assert_eq!((plan.lines[9].x, plan.lines[9].y), (g.text_x, 50 + 9 * (g.row_height + 2)));
    assert_eq!(plan.lines[9].size, g.row_height);
    let direct = plan_composition(&chart, &agg, &g);
    assert_eq!(direct.lines[2].text, plan.lines[2].text);
}

#[test]
fn empty_chart_is_rejected() {
    let agg = ResultAggregator::new();
    assert!(matches!(compose_chart(&chart_of(0), &agg, ChartConfig::standard()), Err(LayoutError::NoAlbums)));
}

#[test]
fn name_length_counts_characters() {
    let chart = Chart { albums: vec![album("a", "héllo"), album("b", "abc"), album("c", "")] };
    assert_eq!(chart.max_name_len(), 5);
    assert_eq!(chart_of(0).max_name_len(), 0);
}
