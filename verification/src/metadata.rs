//! The album metadata that the catalog is built from: albums, discs, tracks,
//! and the categories that group them.

use crate::text::views;
use vstd::prelude::*;

verus! {

/// What kind of recording a track is.
#[derive(Clone, Copy, Debug, PartialEq, Eq, Structural)]
pub enum TrackType {
    Normal,
    Absolute,
    Silence,
    Other,
}

impl TrackType {
    /// Only normal and absolute tracks are offered for playback.
    pub open spec fn playable(self) -> bool {
        self is Normal || self is Absolute
    }

    pub fn is_playable(&self) -> (r: bool)
        ensures
            r == self.playable(),
    {
        match self {
            TrackType::Normal => true,
            TrackType::Absolute => true,
            _ => false,
        }
    }
}

/// The day an album was released. A month or day of zero means "unknown".
#[derive(Clone, Copy, Debug, PartialEq, Eq, Structural)]
pub struct ReleaseDate {
    pub year: u16,
    pub month: u8,
    pub day: u8,
}

pub struct Track {
    pub title: String,
    pub artist: String,
    pub track_type: TrackType,
}

pub struct TrackView {
    pub title: Seq<char>,
    pub artist: Seq<char>,
    pub track_type: TrackType,
}

impl View for Track {
    type V = TrackView;

    open spec fn view(&self) -> TrackView {
        TrackView { title: self.title@, artist: self.artist@, track_type: self.track_type }
    }
}

pub struct Disc {
    pub catalog: String,
    pub title: String,
    pub artist: String,
    pub tracks: Vec<Track>,
}

pub struct DiscView {
    pub catalog: Seq<char>,
    pub title: Seq<char>,
    pub artist: Seq<char>,
    pub tracks: Seq<TrackView>,
}

impl View for Disc {
    type V = DiscView;

    open spec fn view(&self) -> DiscView {
        DiscView {
            catalog: self.catalog@,
            title: self.title@,
            artist: self.artist@,
            tracks: views(self.tracks@),
        }
    }
}

pub struct Album {
    pub catalog: String,
    pub title: String,
    pub artist: String,
    pub release_date: ReleaseDate,
    pub discs: Vec<Disc>,
}

pub struct AlbumView {
    pub catalog: Seq<char>,
    pub title: Seq<char>,
    pub artist: Seq<char>,
    pub release_date: ReleaseDate,
    pub discs: Seq<DiscView>,
}

impl View for Album {
    type V = AlbumView;

    open spec fn view(&self) -> AlbumView {
        AlbumView {
            catalog: self.catalog@,
            title: self.title@,
            artist: self.artist@,
            release_date: self.release_date,
            discs: views(self.discs@),
        }
    }
}

impl Disc {
    /// Makes an album out of this one disc. The album takes the disc's catalog
    /// and artist; its title and release date are given.
    pub fn into_album(self, title: String, release_date: ReleaseDate) -> (album: Album)
        ensures
            album@ == (AlbumView {
                catalog: self@.catalog,
                title: title@,
                artist: self@.artist,
                release_date,
                discs: seq![self@],
            }),
    {
        let catalog = self.catalog.clone();
        let artist = self.artist.clone();
        let mut discs: Vec<Disc> = Vec::new();
        discs.push(self);
        let album = Album { catalog, title, artist, release_date, discs };
        assert(album@.discs =~= seq![self@]);
        album
    }
}

/// A named group of albums inside a category.
pub struct Subcategory {
    pub name: String,
    pub albums: Vec<String>,
}

pub struct SubcategoryView {
    pub name: Seq<char>,
    pub albums: Seq<Seq<char>>,
}

impl View for Subcategory {
    type V = SubcategoryView;

    open spec fn view(&self) -> SubcategoryView {
        SubcategoryView { name: self.name@, albums: views(self.albums@) }
    }
}

/// A top-level group: albums filed directly under it, and its subcategories in
/// the order in which they were declared. A subcategory is addressed by its
/// position in that order.
pub struct Category {
    pub name: String,
    pub albums: Vec<String>,
    pub subcategories: Vec<Subcategory>,
}

pub struct CategoryView {
    pub name: Seq<char>,
    pub albums: Seq<Seq<char>>,
    pub subcategories: Seq<SubcategoryView>,
}

impl View for Category {
    type V = CategoryView;

    open spec fn view(&self) -> CategoryView {
        CategoryView {
            name: self.name@,
            albums: views(self.albums@),
            subcategories: views(self.subcategories@),
        }
    }
}

} // verus!
