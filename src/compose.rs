//! What the collage is made of: which cover goes in which cell, and which
//! legend line goes where. Drawing follows this plan and decides nothing.

use vstd::prelude::*;
use crate::aggregator::ResultAggregator;
use crate::layout::{plan_layout, spec_plan_layout, ChartConfig, GridGeometry, LayoutError};
use crate::types::{max_name_len, Chart};

verus! {

/// What fills a grid cell.
#[derive(Clone, Copy, Debug, PartialEq, Eq, Structural)]
pub enum CoverArt {
    /// The blank image, for an album without cover bytes.
    Placeholder,
    /// The album's fetched bytes, decoded and scaled to the cell.
    Payload,
}

/// One cell of the grid.
#[derive(Clone, Copy, Debug, PartialEq, Eq, Structural)]
pub struct CoverCell {
    /// Rank index of the album, from 0.
    pub rank: u32,
    pub x: u32,
    pub y: u32,
    pub art: CoverArt,
}

/// One line of the legend, with the glyph size to draw it at.
#[derive(Clone, Debug)]
pub struct LegendLine {
    pub text: String,
    pub x: u32,
    pub y: u32,
    pub size: u32,
}

/// Everything the canvas is drawn from.
#[derive(Clone, Debug)]
pub struct CompositionPlan {
    pub width: u32,
    pub height: u32,
    pub cover_length: u32,
    pub cells: Vec<CoverCell>,
    pub lines: Vec<LegendLine>,
}

pub open spec fn digit_char(d: int) -> char {
    seq!['0', '1', '2', '3', '4', '5', '6', '7', '8', '9'][d]
}

/// `n` written in decimal.
pub open spec fn decimal(n: nat) -> Seq<char>
    decreases n,
{
    if n < 10 {
        seq![digit_char(n as int)]
    } else {
        decimal(n / 10).push(digit_char((n % 10) as int))
    }
}

/// The legend line "rank. artist - album".
pub open spec fn legend_text(rank: nat, artist: Seq<char>, album: Seq<char>) -> Seq<char> {
    decimal(rank) + seq!['.', ' '] + artist + seq![' ', '-', ' '] + album
}

/// How an album's cell is filled: its fetched bytes when the store holds
/// some, else the placeholder. An album that is absent from the store counts
/// as one with no bytes.
pub open spec fn art_for(store: Map<Seq<char>, (usize, Seq<u8>)>, name: Seq<char>) -> CoverArt {
    if store.contains_key(name) && store[name].1.len() > 0 {
        CoverArt::Payload
    } else {
        CoverArt::Placeholder
    }
}

/// An album whose fetch brought no cover bytes, or that is missing from the
/// store, is drawn with the placeholder.
pub proof fn lemma_no_bytes_is_placeholder(store: Map<Seq<char>, (usize, Seq<u8>)>, name: Seq<char>)
    requires
        store.contains_key(name) ==> store[name].1.len() == 0,
    ensures
        art_for(store, name) == CoverArt::Placeholder,
{
}

/// Number of albums that get a grid cell.
pub open spec fn placed(g: GridGeometry) -> nat {
    if g.count <= g.side * g.side {
        g.count as nat
    } else {
        (g.side * g.side) as nat
    }
}

/// The decimal digit `d` as a string.
fn digit_str(d: u32) -> (r: &'static str)
    requires
        d < 10,
    ensures
        r@ == seq![digit_char(d as int)],
{
    proof {
        reveal_strlit("0");
        reveal_strlit("1");
        reveal_strlit("2");
        reveal_strlit("3");
        reveal_strlit("4");
        reveal_strlit("5");
        reveal_strlit("6");
        reveal_strlit("7");
        reveal_strlit("8");
        reveal_strlit("9");
    }
    let r = if d == 0 {
        "0"
    } else if d == 1 {
        "1"
    } else if d == 2 {
        "2"
    } else if d == 3 {
        "3"
    } else if d == 4 {
        "4"
    } else if d == 5 {
        "5"
    } else if d == 6 {
        "6"
    } else if d == 7 {
        "7"
    } else if d == 8 {
        "8"
    } else {
        "9"
    };
    assert(r@ =~= seq![digit_char(d as int)]);
    r
}

/// Appends `n` in decimal to `out`.
fn push_decimal(out: &mut String, n: u32)
    ensures
        final(out)@ == old(out)@ + decimal(n as nat),
    decreases n,
{
    if n >= 10 {
        push_decimal(out, n / 10);
    }
    let d = digit_str(n % 10);
    out.append(d);
    proof {
        if n >= 10 {
            assert(decimal(n as nat) == decimal((n / 10) as nat).push(digit_char((n % 10) as int)));
        }
        assert(out@ =~= old(out)@ + decimal(n as nat));
    }
}

/// The legend line "rank. artist - album".
pub fn legend_line(rank: u32, artist: &str, album: &str) -> (r: String)
    ensures
        r@ == legend_text(rank as nat, artist@, album@),
{
    proof {
        reveal_strlit(". ");
        reveal_strlit(" - ");
    }
    let mut line = String::new();
    push_decimal(&mut line, rank);
    line.append(". ");
    line.append(artist);
    line.append(" - ");
    line.append(album);
    assert(line@ =~= legend_text(rank as nat, artist@, album@));
    line
}

/// `p` is the plan of `chart` over `g` with the cover bytes of `store`.
pub open spec fn plans(p: CompositionPlan, chart: &Chart, store: Map<Seq<char>, (usize, Seq<u8>)>, g: GridGeometry) -> bool {
    &&& p.width == g.width
    &&& p.height == g.height
    &&& p.cover_length == g.cover_length
    &&& p.cells@.len() == placed(g)
    &&& p.cells@.len() <= chart.albums@.len()
    &&& forall|i: int|
        #![trigger p.cells@[i]]
        0 <= i < p.cells@.len() ==> {
            &&& p.cells@[i].rank == i
            &&& p.cells@[i].x == g.margin + g.cover_length * (i % g.side as int)
            &&& p.cells@[i].y == g.margin + g.cover_length * (i / g.side as int)
            &&& p.cells@[i].art == art_for(store, chart.albums@[i].name@)
        }
    &&& p.lines@.len() == chart.albums@.len()
    &&& forall|i: int|
        #![trigger p.lines@[i]]
        0 <= i < p.lines@.len() ==> {
            &&& p.lines@[i].text@ == legend_text(
                (i + 1) as nat,
                chart.albums@[i].artist.name@,
                chart.albums@[i].name@,
            )
            &&& p.lines@[i].x == g.text_x
            &&& p.lines@[i].y == g.margin + i * (g.row_height + g.row_spacing)
            &&& p.lines@[i].size == g.row_height
        }
}

/// In a planned collage, the cell of an album whose fetch brought no cover
/// bytes (or that is missing from the store) holds the placeholder.
pub proof fn lemma_coverless_album_is_placeholder(
    p: CompositionPlan,
    chart: &Chart,
    store: Map<Seq<char>, (usize, Seq<u8>)>,
    g: GridGeometry,
    i: int,
)
    requires
        plans(p, chart, store, g),
        0 <= i < p.cells@.len(),
        store.contains_key(chart.albums@[i].name@) ==> store[chart.albums@[i].name@].1.len() == 0,
    ensures
        p.cells@[i].art == CoverArt::Placeholder,
{
    lemma_no_bytes_is_placeholder(store, chart.albums@[i].name@);
}

/// Plans the collage of `chart` over `geom`. The first `side * side` albums
/// fill the grid row by row; every album, those past the grid included, gets
/// a legend line numbered from 1.
pub fn plan_composition(chart: &Chart, store: &ResultAggregator, geom: &GridGeometry) -> (r:
    CompositionPlan)
    requires
        store.wf(),
        geom.wf(),
        geom.count == chart.albums@.len(),
    ensures
        r.width == geom.width,
        r.height == geom.height,
        r.cover_length == geom.cover_length,
        r.cells@.len() == placed(*geom),
        forall|i: int|
            #![trigger r.cells@[i]]
            0 <= i < r.cells@.len() ==> {
                &&& r.cells@[i].rank == i
                &&& r.cells@[i].x == geom.margin + geom.cover_length * (i % geom.side as int)
                &&& r.cells@[i].y == geom.margin + geom.cover_length * (i / geom.side as int)
                &&& r.cells@[i].art == art_for(store@, chart.albums@[i].name@)
            },
        r.lines@.len() == chart.albums@.len(),
        forall|i: int|
            #![trigger r.lines@[i]]
            0 <= i < r.lines@.len() ==> {
                &&& r.lines@[i].text@ == legend_text(
                    (i + 1) as nat,
                    chart.albums@[i].artist.name@,
                    chart.albums@[i].name@,
                )
                &&& r.lines@[i].x == geom.text_x
                &&& r.lines@[i].y == geom.margin + i * (geom.row_height + geom.row_spacing)
                &&& r.lines@[i].size == geom.row_height
            },
{
    let mut cells: Vec<CoverCell> = Vec::new();
    let mut lines: Vec<LegendLine> = Vec::new();
    let n = chart.albums.len();
    let mut i: usize = 0;
    while i < n
        invariant
            n == chart.albums@.len(),
            n == geom.count,
            store.wf(),
            geom.wf(),
            i <= n,
            lines@.len() == i,
            cells@.len() == if i <= geom.side * geom.side { i as int } else { geom.side * geom.side },
            forall|k: int|
                #![trigger cells@[k]]
                0 <= k < cells@.len() ==> {
                    &&& cells@[k].rank == k
                    &&& cells@[k].x == geom.margin + geom.cover_length * (k % geom.side as int)
                    &&& cells@[k].y == geom.margin + geom.cover_length * (k / geom.side as int)
                    &&& cells@[k].art == art_for(store@, chart.albums@[k].name@)
                },
            forall|k: int|
                #![trigger lines@[k]]
                0 <= k < i ==> {
                    &&& lines@[k].text@ == legend_text(
                        (k + 1) as nat,
                        chart.albums@[k].artist.name@,
                        chart.albums@[k].name@,
                    )
                    &&& lines@[k].x == geom.text_x
                    &&& lines@[k].y == geom.margin + k * (geom.row_height + geom.row_spacing)
                    &&& lines@[k].size == geom.row_height
                },
        decreases n - i,
    {
        let album = &chart.albums[i];
        let rank = i as u32;
        if (rank as u64) < geom.side as u64 * geom.side as u64 {
            let (x, y) = geom.cell_origin(rank);
            let art = match store.get(&album.name) {
                Some(found) => if found.image.len() > 0 {
                    CoverArt::Payload
                } else {
                    CoverArt::Placeholder
                },
                None => CoverArt::Placeholder,
            };
            cells.push(CoverCell { rank, x, y, art });
        }
        let (x, y) = geom.text_origin(rank);
        let text = legend_line(rank + 1, album.artist.name.as_str(), album.name.as_str());
        lines.push(LegendLine { text, x, y, size: geom.row_height });
        i = i + 1;
    }
    CompositionPlan {
        width: geom.width,
        height: geom.height,
        cover_length: geom.cover_length,
        cells,
        lines,
    }
}

/// Plans the collage of `chart` with `cfg`: its geometry from the number of
/// albums and the longest name, then each cell and legend line.
pub fn compose_chart(chart: &Chart, store: &ResultAggregator, cfg: ChartConfig) -> (r: Result<
    CompositionPlan,
    LayoutError,
>)
    requires
        store.wf(),
    ensures
        match spec_plan_layout(chart.albums@.len(), max_name_len(chart.albums@), cfg) {
            Ok(g) => g.wf() && r is Ok && plans(r->Ok_0, chart, store@, g),
            Err(e) => r == Err::<CompositionPlan, LayoutError>(e),
        },
{
    let longest = chart.max_name_len();
    match plan_layout(chart.albums.len(), longest, cfg) {
        Ok(geom) => Ok(plan_composition(chart, store, &geom)),
        Err(e) => Err(e),
    }
}

} // verus!
