//! The records that are handed to a client: query parameters on the way in,
//! directory listings on the way out.

use crate::metadata;
use crate::text::views;
use vstd::prelude::*;

verus! {

/// The query of a request that names one node.
pub struct Id {
    pub id: String,
}

/// The query of a request for a page of albums.
pub struct SizeOffset {
    pub size: usize,
    pub offset: usize,
}

/// The page size where the request gives none.
pub fn ten() -> (n: usize)
    ensures
        n == 10,
{
    10
}

impl SizeOffset {
    /// The page that a request asks for: ten albums from the start, unless it
    /// says otherwise.
    pub fn new(size: Option<usize>, offset: Option<usize>) -> (r: SizeOffset)
        ensures
            r.size == (match size {
                Some(n) => n,
                None => 10,
            }),
            r.offset == (match offset {
                Some(n) => n,
                None => 0,
            }),
    {
        let size: usize = match size {
            Some(n) => n,
            None => ten(),
        };
        let offset: usize = match offset {
            Some(n) => n,
            None => 0,
        };
        SizeOffset { size, offset }
    }
}

/// A directory that a listing offers: an album, or a folder above albums.
pub struct Album {
    pub id: String,
    pub parent: String,
    pub title: String,
    pub artist: String,
    pub is_dir: bool,
    pub cover_art: String,
}

pub struct AlbumView {
    pub id: Seq<char>,
    pub parent: Seq<char>,
    pub title: Seq<char>,
    pub artist: Seq<char>,
    pub is_dir: bool,
    pub cover_art: Seq<char>,
}

impl View for Album {
    type V = AlbumView;

    open spec fn view(&self) -> AlbumView {
        AlbumView {
            id: self.id@,
            parent: self.parent@,
            title: self.title@,
            artist: self.artist@,
            is_dir: self.is_dir,
            cover_art: self.cover_art@,
        }
    }
}

/// The entry under which `album` is offered in the listing `parent`.
pub open spec fn album_entry(album: metadata::AlbumView, parent: Seq<char>) -> AlbumView {
    AlbumView {
        id: album.catalog,
        parent,
        title: album.title,
        artist: album.artist,
        is_dir: true,
        cover_art: album.catalog,
    }
}

/// The entry of a folder that is not an album: it has no artist and no cover.
pub open spec fn folder_entry(id: Seq<char>, parent: Seq<char>, title: Seq<char>) -> AlbumView {
    AlbumView { id, parent, title, artist: Seq::empty(), is_dir: true, cover_art: Seq::empty() }
}

impl Album {
    /// An album directly below the music folder `@`. Its catalog is both its id
    /// and the id of its cover.
    pub fn new(catalog: String, title: String, artist: String) -> (r: Album)
        ensures
            r@ == (AlbumView {
                id: catalog@,
                parent: "@"@,
                title: title@,
                artist: artist@,
                is_dir: true,
                cover_art: catalog@,
            }),
    {
        Album {
            id: catalog.clone(),
            parent: String::from_str("@"),
            title,
            artist,
            is_dir: true,
            cover_art: catalog,
        }
    }

    /// The entry of `album` directly below the music folder `@`.
    pub fn from_album(album: &metadata::Album) -> (r: Album)
        ensures
            r@ == album_entry(album@, "@"@),
    {
        Album::new(album.catalog.clone(), album.title.clone(), album.artist.clone())
    }

    /// The entry of `album` in the listing `parent`.
    pub fn from_album_in(album: &metadata::Album, parent: &str) -> (r: Album)
        ensures
            r@ == album_entry(album@, parent@),
    {
        Album {
            id: album.catalog.clone(),
            parent: String::from_str(parent),
            title: album.title.clone(),
            artist: album.artist.clone(),
            is_dir: true,
            cover_art: album.catalog.clone(),
        }
    }

    /// The entry of a folder that is not an album.
    pub fn folder(id: String, parent: &str, title: &str) -> (r: Album)
        ensures
            r@ == folder_entry(id@, parent@, title@),
    {
        Album {
            id,
            parent: String::from_str(parent),
            title: String::from_str(title),
            artist: String::new(),
            is_dir: true,
            cover_art: String::new(),
        }
    }
}

/// A page of albums.
pub struct AlbumList {
    pub inner: Vec<Album>,
}

pub struct AlbumListView {
    pub inner: Seq<AlbumView>,
}

impl View for AlbumList {
    type V = AlbumListView;

    open spec fn view(&self) -> AlbumListView {
        AlbumListView { inner: views(self.inner@) }
    }
}

impl AlbumList {
    pub fn new() -> (r: AlbumList)
        ensures
            r@.inner == Seq::<AlbumView>::empty(),
    {
        let r = AlbumList { inner: Vec::new() };
        assert(r@.inner =~= Seq::<AlbumView>::empty());
        r
    }

    pub fn push(&mut self, album: Album)
        ensures
            final(self)@.inner == old(self)@.inner.push(album@),
    {
        self.inner.push(album);
        assert(self@.inner =~= old(self)@.inner.push(album@));
    }
}

/// One track of an album, as a listing offers it.
pub struct Track {
    pub id: String,
    pub parent: String,
    pub is_dir: bool,
    pub album: String,
    pub title: String,
    pub artist: String,
    pub track: usize,
    pub cover_art: String,
    pub path: String,
    pub suffix: String,
}

pub struct TrackView {
    pub id: Seq<char>,
    pub parent: Seq<char>,
    pub is_dir: bool,
    pub album: Seq<char>,
    pub title: Seq<char>,
    pub artist: Seq<char>,
    pub track: nat,
    pub cover_art: Seq<char>,
    pub path: Seq<char>,
    pub suffix: Seq<char>,
}

impl View for Track {
    type V = TrackView;

    open spec fn view(&self) -> TrackView {
        TrackView {
            id: self.id@,
            parent: self.parent@,
            is_dir: self.is_dir,
            album: self.album@,
            title: self.title@,
            artist: self.artist@,
            track: self.track as nat,
            cover_art: self.cover_art@,
            path: self.path@,
            suffix: self.suffix@,
        }
    }
}

/// The listing of one album: its tracks.
pub struct AlbumDirectory {
    pub id: String,
    pub name: String,
    pub inner: Vec<Track>,
}

pub struct AlbumDirectoryView {
    pub id: Seq<char>,
    pub name: Seq<char>,
    pub inner: Seq<TrackView>,
}

impl View for AlbumDirectory {
    type V = AlbumDirectoryView;

    open spec fn view(&self) -> AlbumDirectoryView {
        AlbumDirectoryView { id: self.id@, name: self.name@, inner: views(self.inner@) }
    }
}

/// The listing of a category or subcategory: the directories below it.
pub struct MusicDirectory {
    pub id: String,
    pub name: String,
    pub inner: Vec<Album>,
}

pub struct MusicDirectoryView {
    pub id: Seq<char>,
    pub name: Seq<char>,
    pub inner: Seq<AlbumView>,
}

impl View for MusicDirectory {
    type V = MusicDirectoryView;

    open spec fn view(&self) -> MusicDirectoryView {
        MusicDirectoryView { id: self.id@, name: self.name@, inner: views(self.inner@) }
    }
}

/// One category in the index of the music folder.
pub struct IndexArtist {
    pub id: String,
    pub name: String,
}

pub struct IndexArtistView {
    pub id: Seq<char>,
    pub name: Seq<char>,
}

impl View for IndexArtist {
    type V = IndexArtistView;

    open spec fn view(&self) -> IndexArtistView {
        IndexArtistView { id: self.id@, name: self.name@ }
    }
}

/// The index of the music folder: its categories.
pub struct Index {
    pub name: String,
    pub inner: Vec<IndexArtist>,
}

pub struct IndexView {
    pub name: Seq<char>,
    pub inner: Seq<IndexArtistView>,
}

impl View for Index {
    type V = IndexView;

    open spec fn view(&self) -> IndexView {
        IndexView { name: self.name@, inner: views(self.inner@) }
    }
}

/// Tracks picked at random.
pub struct RandomSongs {
    pub inner: Vec<Track>,
}

} // verus!
