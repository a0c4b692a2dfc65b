//! Browsing the catalog: what stands below the node that an id names.
//!
//! Nothing here reads the backend. The catalogs that the backend can serve at
//! the moment are handed in by the caller, and a listing of albums shows only
//! albums among them.

use crate::config::{url, AnnilConfig};
use crate::ids::{
    bucket_id, bucket_id_round_trip, category_id, category_id_round_trip, decode, is_track_id,
    make_bucket_id, make_category_id, make_subcategory_id, make_track_id, names_track, parse_id,
    subcategory_id, subcategory_id_round_trip, track_id, Address, Node,
};
use crate::metadata;
use crate::metadata::{Category, CategoryView};
use crate::models;
use crate::models::{
    album_entry, folder_entry, AlbumDirectory, AlbumDirectoryView, AlbumList, Index, IndexArtist,
    IndexArtistView, IndexView, MusicDirectory, MusicDirectoryView,
};
use crate::repo::RepoManager;
use crate::text::{
    chars_of, contains, decimal, decimal_round_trip, parse_decimal, push_decimal, read_decimal,
    views,
};
use vstd::prelude::*;

verus! {

/// Why an id names nothing.
#[derive(Clone, Copy, Debug, PartialEq, Eq, Structural)]
pub enum NotFound {
    /// No category has the name that the id gives.
    Category,
    /// The category has no subcategory at the position that the id gives, or
    /// what the id gives is no position.
    Subcategory,
    /// No album has the catalog that the id gives.
    Album,
}

/// What stands below a node: directories, or the tracks of an album.
pub enum Directory {
    Albums(MusicDirectory),
    Tracks(AlbumDirectory),
}

pub enum DirectoryView {
    Albums(MusicDirectoryView),
    Tracks(AlbumDirectoryView),
}

impl View for Directory {
    type V = DirectoryView;

    open spec fn view(&self) -> DirectoryView {
        match *self {
            Directory::Albums(d) => DirectoryView::Albums(d@),
            Directory::Tracks(d) => DirectoryView::Tracks(d@),
        }
    }
}

/// Where a client is told to look for the file of track `number`.
pub open spec fn track_path(catalog: Seq<char>, album: Seq<char>, number: nat) -> Seq<char> {
    seq!['['] + catalog + seq![']', ' '] + album + seq!['/'] + decimal(number)
}

/// The entry of the track at position `i` of the one disc of `album`, which
/// was reached under `catalog`. Tracks are numbered from one.
pub open spec fn track_entry(catalog: Seq<char>, album: metadata::AlbumView, i: int)
    -> models::TrackView {
    let track = album.discs[0].tracks[i];
    models::TrackView {
        id: track_id(catalog, (i + 1) as nat),
        parent: catalog,
        is_dir: false,
        album: album.title,
        title: track.title,
        artist: track.artist,
        track: (i + 1) as nat,
        cover_art: catalog,
        path: track_path(catalog, album.title, (i + 1) as nat),
        suffix: "flac"@,
    }
}

/// The tracks of the one disc of `album`, in the disc's order.
pub open spec fn track_listing(catalog: Seq<char>, album: metadata::AlbumView)
    -> AlbumDirectoryView {
    AlbumDirectoryView {
        id: catalog,
        name: album.title,
        inner: Seq::new(album.discs[0].tracks.len(), |i: int| track_entry(catalog, album, i)),
    }
}

/// The albums among `members` that the index knows and the backend can serve,
/// in the order of `members`. The others are left out.
pub open spec fn album_listing(
    repo: &RepoManager,
    available: Seq<Seq<char>>,
    members: Seq<Seq<char>>,
    parent: Seq<char>,
) -> Seq<models::AlbumView>
    decreases members.len(),
{
    if members.len() == 0 {
        Seq::empty()
    } else {
        let before = album_listing(repo, available, members.drop_last(), parent);
        match repo.lookup(members.last()) {
            Some(album) => if available.contains(album.catalog) {
                before.push(album_entry(album, parent))
            } else {
                before
            },
            None => before,
        }
    }
}

/// The folder that stands for the subcategory at `position`.
pub open spec fn subcategory_folder(
    key: Seq<char>,
    category: CategoryView,
    parent: Seq<char>,
    position: int,
) -> models::AlbumView {
    folder_entry(
        subcategory_id(key, position as nat),
        parent,
        category.subcategories[position].name,
    )
}

/// The folders of a category that has subcategories: first `Default`, for the
/// albums filed directly under the category, if there are any; then one
/// folder for each subcategory, in declared order.
pub open spec fn folders(key: Seq<char>, category: CategoryView, parent: Seq<char>) -> Seq<
    models::AlbumView,
> {
    let named = Seq::new(
        category.subcategories.len(),
        |i: int| subcategory_folder(key, category, parent, i),
    );
    if category.albums.len() > 0 {
        seq![folder_entry(bucket_id(key), parent, "Default"@)] + named
    } else {
        named
    }
}

/// What stands directly below the category filed under `key`: its albums if it
/// has no subcategory, else its folders.
pub open spec fn category_listing(
    repo: &RepoManager,
    available: Seq<Seq<char>>,
    key: Seq<char>,
    category: CategoryView,
    id: Seq<char>,
) -> MusicDirectoryView {
    MusicDirectoryView {
        id,
        name: category.name,
        inner: if category.subcategories.len() == 0 {
            album_listing(repo, available, category.albums, id)
        } else {
            folders(key, category, id)
        },
    }
}

/// What stands below the node that `id` names, given the catalogs that the
/// backend can serve.
pub open spec fn resolve(repo: &RepoManager, available: Seq<Seq<char>>, id: Seq<char>) -> Result<
    DirectoryView,
    NotFound,
> {
    match decode(id) {
        Node::Album { catalog } => match repo.lookup(catalog) {
            Some(album) => Ok(DirectoryView::Tracks(track_listing(catalog, album))),
            None => Err(NotFound::Album),
        },
        Node::Category { name } => match repo.category(name) {
            Some(category) => Ok(
                DirectoryView::Albums(category_listing(repo, available, name, category, id)),
            ),
            None => Err(NotFound::Category),
        },
        Node::Bucket { name } => match repo.category(name) {
            Some(category) => Ok(
                DirectoryView::Albums(
                    MusicDirectoryView {
                        id,
                        name: category.name,
                        inner: album_listing(repo, available, category.albums, id),
                    },
                ),
            ),
            None => Err(NotFound::Category),
        },
        Node::Subcategory { name, position } => match repo.category(name) {
            Some(category) => match parse_decimal(position) {
                Some(p) => if p < category.subcategories.len() {
                    Ok(
                        DirectoryView::Albums(
                            MusicDirectoryView {
                                id,
                                name: category.subcategories[p as int].name,
                                inner: album_listing(
                                    repo,
                                    available,
                                    category.subcategories[p as int].albums,
                                    id,
                                ),
                            },
                        ),
                    )
                } else {
                    Err(NotFound::Subcategory)
                },
                None => Err(NotFound::Subcategory),
            },
            None => Err(NotFound::Category),
        },
    }
}

/// Whether the listing of `id` shows albums, and so depends on what the
/// backend can serve.
pub open spec fn lists_albums(repo: &RepoManager, id: Seq<char>) -> bool {
    match decode(id) {
        Node::Album { .. } => false,
        Node::Category { name } => match repo.category(name) {
            Some(category) => category.subcategories.len() == 0,
            None => false,
        },
        Node::Bucket { name } => repo.category(name) is Some,
        Node::Subcategory { name, position } => match repo.category(name) {
            Some(category) => match parse_decimal(position) {
                Some(p) => p < category.subcategories.len(),
                None => false,
            },
            None => false,
        },
    }
}

/// Writes the entry of the track at position `i` of the one disc of `album`.
pub fn make_track_entry(catalog: &str, album: &metadata::Album, i: usize) -> (r: models::Track)
    requires
        album.discs.len() > 0,
        i < album.discs[0].tracks.len(),
    ensures
        r@ == track_entry(catalog@, album@, i as int),
{
    let track = &album.discs[0].tracks[i];
    let number: usize = i + 1;
    proof {
        reveal_strlit("[");
        reveal_strlit("] ");
        reveal_strlit("/");
    }
    let mut path = String::from_str("[");
    path.append(catalog);
    path.append("] ");
    path.append(album.title.as_str());
    path.append("/");
    push_decimal(&mut path, number);
    assert(path@ =~= track_path(catalog@, album@.title, number as nat));
    models::Track {
        id: make_track_id(catalog, number),
        parent: String::from_str(catalog),
        is_dir: false,
        album: album.title.clone(),
        title: track.title.clone(),
        artist: track.artist.clone(),
        track: number,
        cover_art: String::from_str(catalog),
        path,
        suffix: String::from_str("flac"),
    }
}

/// Lists the tracks of the one disc of `album`.
fn list_tracks(catalog: &str, album: &metadata::Album) -> (r: AlbumDirectory)
    requires
        album.discs.len() > 0,
    ensures
        r@ == track_listing(catalog@, album@),
{
    let tracks = &album.discs[0].tracks;
    let mut inner: Vec<models::Track> = Vec::new();
    let mut i: usize = 0;
    while i < tracks.len()
        invariant
            album.discs.len() > 0,
            tracks == &album.discs[0].tracks,
            i <= tracks.len(),
            inner.len() == i,
            forall|j: int| 0 <= j < i ==> (#[trigger] inner[j])@ == track_entry(catalog@, album@, j),
        decreases tracks.len() - i,
    {
        inner.push(make_track_entry(catalog, album, i));
        i += 1;
    }
    let r = AlbumDirectory {
        id: String::from_str(catalog),
        name: album.title.clone(),
        inner,
    };
    assert(r@.inner =~= track_listing(catalog@, album@).inner);
    r
}

/// Lists the albums among `members` that the index knows and the backend can
/// serve.
fn list_albums(repo: &RepoManager, available: &Vec<String>, members: &Vec<String>, parent: &str)
    -> (r: Vec<models::Album>)
    ensures
        views(r@) == album_listing(repo, views(available@), views(members@), parent@),
{
    let ghost all = views(members@);
    let mut out: Vec<models::Album> = Vec::new();
    let mut i: usize = 0;
    assert(views(out@) =~= album_listing(repo, views(available@), all.take(0), parent@));
    while i < members.len()
        invariant
            i <= members.len(),
            all == views(members@),
            views(out@) == album_listing(repo, views(available@), all.take(i as int), parent@),
        decreases members.len() - i,
    {
        proof {
            let next = all.take(i + 1);
            assert(next.drop_last() =~= all.take(i as int));
            assert(next.last() == members[i as int]@);
        }
        let ghost before = views(out@);
        match repo.load_album(members[i].as_str()) {
            Some(album) => {
                if contains(available, &album.catalog) {
                    out.push(models::Album::from_album_in(album, parent));
                    assert(views(out@) =~= before.push(album_entry(album@, parent@)));
                }
            },
            None => {},
        }
        i += 1;
    }
    assert(all.take(i as int) =~= all);
    out
}

/// Lists the folders of a category that has subcategories.
fn list_folders(key: &str, category: &Category, parent: &str) -> (r: Vec<models::Album>)
    ensures
        views(r@) == folders(key@, category@, parent@),
{
    let mut out: Vec<models::Album> = Vec::new();
    if category.albums.len() > 0 {
        out.push(models::Album::folder(make_bucket_id(key), parent, "Default"));
    }
    let ghost lead = views(out@);
    let ghost default = folder_entry(bucket_id(key@), parent@, "Default"@);
    assert(lead =~= if category.albums.len() > 0 {
        seq![default]
    } else {
        Seq::empty()
    });
    let mut i: usize = 0;
    while i < category.subcategories.len()
        invariant
            i <= category.subcategories.len(),
            default == folder_entry(bucket_id(key@), parent@, "Default"@),
            lead == if category.albums.len() > 0 {
                seq![default]
            } else {
                Seq::empty()
            },
            out.len() == lead.len() + i,
            forall|j: int| 0 <= j < lead.len() ==> (#[trigger] out[j])@ == lead[j],
            forall|j: int|
                0 <= j < i ==> (#[trigger] out[lead.len() + j])@ == subcategory_folder(
                    key@,
                    category@,
                    parent@,
                    j,
                ),
        decreases category.subcategories.len() - i,
    {
        out.push(
            models::Album::folder(
                make_subcategory_id(key, i),
                parent,
                category.subcategories[i].name.as_str(),
            ),
        );
        i += 1;
    }
    proof {
        let wanted = folders(key@, category@, parent@);
        assert(wanted.len() == out.len());
        assert forall|k: int| 0 <= k < out.len() implies views(out@)[k] == wanted[k] by {
            if k >= lead.len() {
                assert(out[lead.len() + (k - lead.len())]@ == subcategory_folder(
                    key@,
                    category@,
                    parent@,
                    k - lead.len(),
                ));
            } else {
                assert(out[k]@ == lead[k]);
            }
        }
        assert(views(out@) =~= wanted);
    }
    out
}

/// Lists what stands below the node that `id` names. `available` holds the
/// catalogs that the backend can serve; an album outside it is left out of a
/// listing of albums, as is a catalog that the index does not know.
///
/// Fails when the id names no category, subcategory or album of the index.
pub fn get_music_directory(repo: &RepoManager, id: &str, available: &Vec<String>) -> (r: Result<
    Directory,
    NotFound,
>)
    requires
        repo.wf(),
    ensures
        match r {
            Ok(directory) => resolve(repo, views(available@), id@) == Ok::<DirectoryView, NotFound>(
                directory@,
            ),
            Err(e) => resolve(repo, views(available@), id@) == Err::<DirectoryView, NotFound>(e),
        },
{
    match parse_id(id) {
        Address::Album { catalog } => match repo.load_album(catalog) {
            Some(album) => Ok(Directory::Tracks(list_tracks(catalog, album))),
            None => Err(NotFound::Album),
        },
        Address::Category { name } => match repo.load_category(name) {
            Some(category) => {
                let inner = if category.subcategories.len() == 0 {
                    list_albums(repo, available, &category.albums, id)
                } else {
                    list_folders(name, category, id)
                };
                Ok(
                    Directory::Albums(
                        MusicDirectory {
                            id: String::from_str(id),
                            name: category.name.clone(),
                            inner,
                        },
                    ),
                )
            },
            None => Err(NotFound::Category),
        },
        Address::Bucket { name } => match repo.load_category(name) {
            Some(category) => Ok(
                Directory::Albums(
                    MusicDirectory {
                        id: String::from_str(id),
                        name: category.name.clone(),
                        inner: list_albums(repo, available, &category.albums, id),
                    },
                ),
            ),
            None => Err(NotFound::Category),
        },
        Address::Subcategory { name, position } => match repo.load_category(name) {
            Some(category) => {
                let numeral = chars_of(position);
                match read_decimal(&numeral) {
                    Some(p) => {
                        if p < category.subcategories.len() {
                            let subcategory = &category.subcategories[p];
                            Ok(
                                Directory::Albums(
                                    MusicDirectory {
                                        id: String::from_str(id),
                                        name: subcategory.name.clone(),
                                        inner: list_albums(
                                            repo,
                                            available,
                                            &subcategory.albums,
                                            id,
                                        ),
                                    },
                                ),
                            )
                        } else {
                            Err(NotFound::Subcategory)
                        }
                    },
                    None => Err(NotFound::Subcategory),
                }
            },
            None => Err(NotFound::Category),
        },
    }
}

/// Says whether the listing of `id` shows albums. Only then does
/// `get_music_directory` look at the catalogs that the backend can serve.
pub fn needs_available(repo: &RepoManager, id: &str) -> (r: bool)
    ensures
        r == lists_albums(repo, id@),
{
    match parse_id(id) {
        Address::Album { .. } => false,
        Address::Category { name } => match repo.load_category(name) {
            Some(category) => category.subcategories.len() == 0,
            None => false,
        },
        Address::Bucket { name } => repo.load_category(name).is_some(),
        Address::Subcategory { name, position } => match repo.load_category(name) {
            Some(category) => {
                let numeral = chars_of(position);
                match read_decimal(&numeral) {
                    Some(p) => p < category.subcategories.len(),
                    None => false,
                }
            },
            None => false,
        },
    }
}

/// The catalogs that are left after the first `offset` were passed over.
pub open spec fn after(catalogs: Seq<Seq<char>>, offset: nat) -> Seq<Seq<char>> {
    if offset <= catalogs.len() {
        catalogs.skip(offset as int)
    } else {
        Seq::empty()
    }
}

/// A page of the albums of `catalogs`, in order. A catalog that the index does
/// not know gives no album. The page is closed as soon as it holds `size`
/// albums, and that is looked at after each catalog: a page of size zero still
/// takes in the first catalog.
pub open spec fn album_page(repo: &RepoManager, catalogs: Seq<Seq<char>>, size: nat) -> Seq<
    models::AlbumView,
>
    decreases catalogs.len(),
{
    if catalogs.len() == 0 {
        Seq::empty()
    } else {
        let head = match repo.lookup(catalogs[0]) {
            Some(album) => seq![album_entry(album, "@"@)],
            None => Seq::empty(),
        };
        if head.len() >= size {
            head
        } else {
            head + album_page(repo, catalogs.skip(1), (size - head.len()) as nat)
        }
    }
}

/// Lists a page of the albums that the backend can serve: those of
/// `available` from position `page.offset` on, up to `page.size` of them.
pub fn get_album_list(repo: &RepoManager, available: &Vec<String>, page: &models::SizeOffset) -> (r:
    AlbumList)
    ensures
        r@.inner == album_page(repo, after(views(available@), page.offset as nat), page.size as nat),
{
    let ghost all = views(available@);
    let ghost wanted = album_page(repo, after(all, page.offset as nat), page.size as nat);
    let mut albums = AlbumList::new();
    if page.offset >= available.len() {
        assert(after(all, page.offset as nat) =~= Seq::<Seq<char>>::empty());
        return albums;
    }
    let mut i: usize = page.offset;
    let mut open: bool = true;
    while open && i < available.len()
        invariant
            page.offset <= i <= available.len(),
            all == views(available@),
            open ==> albums@.inner.len() <= page.size,
            open ==> wanted == albums@.inner + album_page(
                repo,
                all.skip(i as int),
                (page.size - albums@.inner.len()) as nat,
            ),
            open && albums@.inner.len() == page.size ==> i == page.offset,
            !open ==> wanted == albums@.inner,
        decreases available.len() - i, open as int,
    {
        let ghost rest = all.skip(i as int);
        let ghost before = albums@.inner;
        proof {
            assert(rest[0] == available[i as int]@);
            assert(rest.skip(1) =~= all.skip(i + 1));
        }
        match repo.load_album(available[i].as_str()) {
            Some(album) => {
                albums.push(models::Album::from_album(album));
                assert(albums@.inner =~= before + seq![album_entry(album@, "@"@)]);
            },
            None => {
                assert(albums@.inner =~= before + Seq::<models::AlbumView>::empty());
            },
        }
        if albums.inner.len() >= page.size {
            open = false;
            proof {
                let head = albums@.inner.skip(before.len() as int);
                assert(albums@.inner =~= before + head);
            }
        } else {
            proof {
                let head = albums@.inner.skip(before.len() as int);
                assert(albums@.inner =~= before + head);
                let tail = album_page(
                    repo,
                    rest.skip(1),
                    (page.size - albums@.inner.len()) as nat,
                );
                assert(before + (head + tail) =~= albums@.inner + tail);
            }
        }
        i += 1;
    }
    proof {
        if open {
            assert(all.skip(i as int) =~= Seq::<Seq<char>>::empty());
            assert(albums@.inner + Seq::<models::AlbumView>::empty() =~= albums@.inner);
        }
    }
    albums
}

/// The entry of the category filed under `key` in the index of the music
/// folder.
pub open spec fn index_entry(repo: &RepoManager, key: Seq<char>) -> IndexArtistView {
    IndexArtistView { id: category_id(key), name: repo.category_table()[key].name }
}

/// The index of the music folder: one entry for each category, in the order
/// in which the categories are listed.
pub open spec fn index_of(repo: &RepoManager) -> IndexView {
    IndexView {
        name: "Anni"@,
        inner: Seq::new(
            repo.category_keys().len(),
            |i: int| index_entry(repo, repo.category_keys()[i]),
        ),
    }
}

/// Lists the categories as the index of the music folder.
pub fn get_indexes(repo: &RepoManager) -> (r: Index)
    requires
        repo.wf(),
    ensures
        r@ == index_of(repo),
{
    let categories = repo.categories();
    let mut inner: Vec<IndexArtist> = Vec::new();
    let mut i: usize = 0;
    while i < categories.len()
        invariant
            i <= categories.len(),
            inner.len() == i,
            categories.len() == repo.category_keys().len(),
            forall|j: int|
                0 <= j < categories.len() ==> (#[trigger] categories[j]).0@
                    == repo.category_keys()[j] && repo.category(repo.category_keys()[j]) == Some(
                    categories[j].1@,
                ),
            forall|j: int|
                0 <= j < i ==> (#[trigger] inner[j])@ == index_entry(repo, repo.category_keys()[j]),
        decreases categories.len() - i,
    {
        let (key, category) = categories[i];
        inner.push(IndexArtist { id: make_category_id(key), name: category.name.clone() });
        i += 1;
    }
    let r = Index { name: String::from_str("Anni"), inner };
    assert(r@.inner =~= index_of(repo).inner);
    r
}

/// Every entry of a listing of albums stands for one of the members: one that
/// the index knows and the backend can serve.
pub proof fn album_listing_shows_available(
    repo: &RepoManager,
    available: Seq<Seq<char>>,
    members: Seq<Seq<char>>,
    parent: Seq<char>,
    i: int,
)
    requires
        0 <= i < album_listing(repo, available, members, parent).len(),
    ensures
        exists|m: int|
            0 <= m < members.len() && repo.lookup(#[trigger] members[m]) is Some
                && available.contains(repo.lookup(members[m])->0.catalog) && album_listing(
                repo,
                available,
                members,
                parent,
            )[i] == album_entry(repo.lookup(members[m])->0, parent),
    decreases members.len(),
{
    let before = album_listing(repo, available, members.drop_last(), parent);
    let last = members.len() - 1;
    if i < before.len() {
        album_listing_shows_available(repo, available, members.drop_last(), parent, i);
        let m = choose|m: int|
            0 <= m < last && repo.lookup(#[trigger] members.drop_last()[m]) is Some
                && available.contains(repo.lookup(members.drop_last()[m])->0.catalog)
                && before[i] == album_entry(repo.lookup(members.drop_last()[m])->0, parent);
        assert(members[m] == members.drop_last()[m]);
    } else {
        assert(members[last] == members.last());
    }
}

/// The listing of a category that has no subcategory holds the albums filed
/// directly under it, and nothing else: no folder stands for a subcategory.
pub proof fn category_without_subcategories_lists_albums(
    repo: &RepoManager,
    available: Seq<Seq<char>>,
    key: Seq<char>,
)
    requires
        !key.contains('/'),
        repo.category(key) is Some,
        repo.category(key)->0.subcategories.len() == 0,
    ensures
        resolve(repo, available, category_id(key)) == Ok::<DirectoryView, NotFound>(
            DirectoryView::Albums(
                MusicDirectoryView {
                    id: category_id(key),
                    name: repo.category(key)->0.name,
                    inner: album_listing(
                        repo,
                        available,
                        repo.category(key)->0.albums,
                        category_id(key),
                    ),
                },
            ),
        ),
{
    category_id_round_trip(key);
}

/// The listing of a category that has subcategories holds one folder for each
/// of them, in declared order and each under the id of its position. If albums
/// are filed directly under the category, exactly one folder `Default` stands
/// before these; if none are, none does.
pub proof fn category_with_subcategories_lists_folders(
    repo: &RepoManager,
    available: Seq<Seq<char>>,
    key: Seq<char>,
)
    requires
        !key.contains('/'),
        repo.category(key) is Some,
        repo.category(key)->0.subcategories.len() >= 1,
    ensures
        resolve(repo, available, category_id(key)) matches Ok(DirectoryView::Albums(listing)) && {
            let category = repo.category(key)->0;
            let count = category.subcategories.len() as int;
            &&& listing.id == category_id(key)
            &&& listing.name == category.name
            &&& category.albums.len() > 0 ==> {
                &&& listing.inner.len() == 1 + count
                &&& listing.inner[0] == folder_entry(bucket_id(key), category_id(key), "Default"@)
                &&& forall|i: int|
                    0 <= i < count ==> #[trigger] listing.inner[1 + i] == folder_entry(
                        subcategory_id(key, i as nat),
                        category_id(key),
                        category.subcategories[i].name,
                    )
            }
            &&& category.albums.len() == 0 ==> {
                &&& listing.inner.len() == count
                &&& forall|i: int|
                    0 <= i < count ==> #[trigger] listing.inner[i] == folder_entry(
                        subcategory_id(key, i as nat),
                        category_id(key),
                        category.subcategories[i].name,
                    )
            }
        },
{
    category_id_round_trip(key);
}

/// The listing of an album holds the tracks of its one disc in the disc's
/// order, numbered from one, the track with number `n` under the id made of
/// the album's catalog, `/` and `n`.
pub proof fn album_lists_tracks_in_order(
    repo: &RepoManager,
    available: Seq<Seq<char>>,
    catalog: Seq<char>,
)
    requires
        catalog.len() == 0 || catalog[0] != '/',
        repo.lookup(catalog) is Some,
    ensures
        resolve(repo, available, catalog) matches Ok(DirectoryView::Tracks(listing)) && {
            let tracks = repo.lookup(catalog)->0.discs[0].tracks;
            &&& listing.id == catalog
            &&& listing.inner.len() == tracks.len()
            &&& forall|i: int|
                0 <= i < tracks.len() ==> {
                    &&& (#[trigger] listing.inner[i]).id == catalog + seq!['/'] + decimal(
                        (i + 1) as nat,
                    )
                    &&& listing.inner[i].track == i + 1
                    &&& listing.inner[i].title == tracks[i].title
                    &&& listing.inner[i].artist == tracks[i].artist
                    &&& listing.inner[i].parent == catalog
                    &&& !listing.inner[i].is_dir
                }
        },
{
}

/// A listing that shows no albums is the same whatever the backend can serve.
pub proof fn listing_without_albums_ignores_backend(
    repo: &RepoManager,
    first: Seq<Seq<char>>,
    second: Seq<Seq<char>>,
    id: Seq<char>,
)
    requires
        !lists_albums(repo, id),
    ensures
        resolve(repo, first, id) == resolve(repo, second, id),
{
}

/// Where the audio of the track `id` is to be fetched: on the backend, under
/// the id itself. Gives nothing for an id that has not the form of a track's
/// id.
pub fn stream(backend: &AnnilConfig, id: &str) -> (r: Option<String>)
    ensures
        match r {
            Some(address) => names_track(id@) && address@ == url(
                backend.server_setting(),
                id@,
                backend.token(),
            ),
            None => !names_track(id@),
        },
{
    if is_track_id(id) {
        Some(backend.get_url(id))
    } else {
        None
    }
}

/// Where the cover of the album `id` is to be fetched: on the backend, under
/// the id followed by `/cover`.
pub fn get_cover_art(backend: &AnnilConfig, id: &str) -> (r: String)
    ensures
        r@ == url(backend.server_setting(), id@ + "/cover"@, backend.token()),
{
    let mut middle = String::from_str(id);
    middle.append("/cover");
    backend.get_url(middle.as_str())
}

/// The folder that a category's listing offers for its subcategory at
/// `position` can be opened: its id names that subcategory, and the listing
/// of the id holds the subcategory's albums.
pub proof fn listed_subcategory_resolves(
    repo: &RepoManager,
    available: Seq<Seq<char>>,
    key: Seq<char>,
    position: usize,
)
    requires
        !key.contains('/'),
        repo.category(key) is Some,
        position < repo.category(key)->0.subcategories.len(),
    ensures
        resolve(repo, available, subcategory_id(key, position as nat)) == Ok::<
            DirectoryView,
            NotFound,
        >(
            DirectoryView::Albums(
                MusicDirectoryView {
                    id: subcategory_id(key, position as nat),
                    name: repo.category(key)->0.subcategories[position as int].name,
                    inner: album_listing(
                        repo,
                        available,
                        repo.category(key)->0.subcategories[position as int].albums,
                        subcategory_id(key, position as nat),
                    ),
                },
            ),
        ),
{
    subcategory_id_round_trip(key, position as nat);
    decimal_round_trip(position);
}

/// The folder `Default` that a category's listing offers can be opened: its id
/// names the albums filed directly under the category, and the listing of the
/// id holds them.
pub proof fn listed_default_resolves(repo: &RepoManager, available: Seq<Seq<char>>, key: Seq<char>)
    requires
        !key.contains('/'),
        repo.category(key) is Some,
    ensures
        resolve(repo, available, bucket_id(key)) == Ok::<DirectoryView, NotFound>(
            DirectoryView::Albums(
                MusicDirectoryView {
                    id: bucket_id(key),
                    name: repo.category(key)->0.name,
                    inner: album_listing(
                        repo,
                        available,
                        repo.category(key)->0.albums,
                        bucket_id(key),
                    ),
                },
            ),
        ),
{
    bucket_id_round_trip(key);
}

/// An album that a listing offers can be opened: its id is a catalog that the
/// index knows, and the listing of the id holds the album's tracks. This
/// holds of every album whose catalog does not begin with `/`.
pub proof fn listed_album_resolves(
    repo: &RepoManager,
    available: Seq<Seq<char>>,
    members: Seq<Seq<char>>,
    parent: Seq<char>,
    i: int,
)
    requires
        repo.wf(),
        0 <= i < album_listing(repo, available, members, parent).len(),
        ({
            let id = album_listing(repo, available, members, parent)[i].id;
            id.len() == 0 || id[0] != '/'
        }),
    ensures
        ({
            let entry = album_listing(repo, available, members, parent)[i];
            &&& repo.lookup(entry.id) is Some
            &&& entry == album_entry(repo.lookup(entry.id)->0, parent)
            &&& resolve(repo, available, entry.id) == Ok::<DirectoryView, NotFound>(
                DirectoryView::Tracks(track_listing(entry.id, repo.lookup(entry.id)->0)),
            )
        }),
{
    album_listing_shows_available(repo, available, members, parent, i);
}

} // verus!
