//! The records of a weekly album chart and of one album's details.

use vstd::prelude::*;

verus! {

#[derive(Clone, Debug, Default)]
pub struct Artist {
    pub mbid: String,
    pub name: String,
}

/// One track of an album; only how many there are is used.
#[derive(Clone, Debug, Default)]
pub struct Track {}

#[derive(Clone, Debug, Default)]
pub struct TrackWrapper {
    pub track: Vec<Track>,
}

/// One cover-art descriptor: where it is and which size it is labelled with.
#[derive(Clone, Debug, Default)]
pub struct Image {
    pub url: String,
    pub size: String,
}

/// The details of one album.
#[derive(Clone, Debug, Default)]
pub struct AlbumInfo {
    pub name: String,
    pub images: Vec<Image>,
    pub tracks: TrackWrapper,
}

#[derive(Clone, Debug, Default)]
pub struct AlbumInfoWrapper {
    pub album_info: AlbumInfo,
}

/// One entry of a chart.
#[derive(Clone, Debug, Default)]
pub struct Album {
    pub artist: Artist,
    pub mbid: String,
    pub playcount: usize,
    pub name: String,
    pub image_url: String,
    pub tracks: usize,
}

/// Albums in rank order.
#[derive(Clone, Debug, Default)]
pub struct Chart {
    pub albums: Vec<Album>,
}

#[derive(Clone, Debug, Default)]
pub struct WeeklyAlbumChart {
    pub chart: Chart,
}

/// A descriptor whose size label is empty and whose URL is not: the one whose
/// bytes are fetched.
pub open spec fn is_cover(i: Image) -> bool {
    i.size@.len() == 0 && i.url@.len() > 0
}

impl Image {
    pub fn is_cover(&self) -> (r: bool)
        ensures
            r == is_cover(*self),
    {
        self.size.as_str().is_empty() && !self.url.as_str().is_empty()
    }
}

impl AlbumInfo {
    /// Index of the first descriptor with an empty size label and a non-empty
    /// URL; `None` when there is none, in which case no image is fetched.
    pub fn cover_index(&self) -> (r: Option<usize>)
        ensures
            match r {
                Some(j) => j < self.images@.len() && is_cover(self.images@[j as int]) && forall|k: int|
                    0 <= k < j ==> !is_cover(self.images@[k]),
                None => forall|k: int| 0 <= k < self.images@.len() ==> !is_cover(self.images@[k]),
            },
    {
        let mut i: usize = 0;
        while i < self.images.len()
            invariant
                i <= self.images@.len(),
                forall|k: int| 0 <= k < i ==> !is_cover(self.images@[k]),
            decreases self.images@.len() - i,
        {
            if self.images[i].is_cover() {
                return Some(i);
            }
            i = i + 1;
        }
        None
    }

    /// The URL of the cover to fetch, as `cover_index` picks it.
    pub fn cover_url(&self) -> (r: Option<&String>)
        ensures
            match r {
                Some(u) => exists|j: int| 0 <= j < self.images@.len() && is_cover(self.images@[j])
                    && (forall|k: int| 0 <= k < j ==> !is_cover(self.images@[k])) && u@ == self.images@[j].url@,
                None => forall|k: int| 0 <= k < self.images@.len() ==> !is_cover(self.images@[k]),
            },
    {
        match self.cover_index() {
            Some(j) => Some(&self.images[j].url),
            None => None,
        }
    }

    pub fn track_count(&self) -> (r: usize)
        ensures
            r == self.tracks.track@.len(),
    {
        self.tracks.track.len()
    }
}

/// The longest album name of `s`, in characters; 0 for no album.
pub open spec fn max_name_len(s: Seq<Album>) -> nat
    decreases s.len(),
{
    if s.len() == 0 {
        0
    } else {
        let rest = max_name_len(s.drop_last());
        let l = s.last().name@.len();
        if l > rest {
            l
        } else {
            rest
        }
    }
}

impl Chart {
    /// The length, in characters, of the longest album name.
    pub fn max_name_len(&self) -> (r: usize)
        ensures
            r == max_name_len(self.albums@),
    {
        let mut best: usize = 0;
        let mut i: usize = 0;
        while i < self.albums.len()
            invariant
                i <= self.albums@.len(),
                best == max_name_len(self.albums@.take(i as int)),
            decreases self.albums@.len() - i,
        {
            let l = self.albums[i].name.as_str().unicode_len();
            proof {
                assert(self.albums@.take(i + 1).drop_last() =~= self.albums@.take(i as int));
            }
            if l > best {
                best = l;
            }
            i = i + 1;
        }
        proof {
            assert(self.albums@.take(i as int) =~= self.albums@);
        }
        best
    }
}

} // verus!
