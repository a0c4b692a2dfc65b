//! The catalog index: every album that can be addressed by a catalog, and the
//! categories that group them.
//!
//! An album of one disc is addressed by its own catalog. An album of several
//! discs is not addressable as a whole: each of its discs becomes an album of
//! its own, addressed by the disc's catalog.

use crate::metadata::{Album, AlbumView, Category, CategoryView};
use crate::text::{decimal, push_decimal, views};
use vstd::hash_map::StringHashMap;
use vstd::prelude::*;

verus! {

/// The title under which disc number `number` (counted from one) is shown.
pub open spec fn disc_title(title: Seq<char>, number: nat) -> Seq<char> {
    title + " [Disc "@ + decimal(number) + "]"@
}

/// The album that stands for the disc at position `i` of `album`.
pub open spec fn disc_album(album: AlbumView, i: int) -> AlbumView {
    let disc = album.discs[i];
    AlbumView {
        catalog: disc.catalog,
        title: disc_title(disc.title, (i + 1) as nat),
        artist: disc.artist,
        release_date: album.release_date,
        discs: seq![disc],
    }
}

/// `table` after the first `n` discs of `album` were filed in it, each under
/// its own catalog and in order, a later one replacing an earlier one.
pub open spec fn with_discs(
    table: Map<Seq<char>, AlbumView>,
    album: AlbumView,
    n: int,
) -> Map<Seq<char>, AlbumView>
    decreases n,
{
    if n <= 0 {
        table
    } else {
        with_discs(table, album, n - 1).insert(album.discs[n - 1].catalog, disc_album(album, n - 1))
    }
}

/// The table of whole albums: each album of `source` that has exactly one disc,
/// under its catalog. Of two with one catalog, the later one stays.
pub open spec fn filed_albums(source: Seq<AlbumView>) -> Map<Seq<char>, AlbumView>
    decreases source.len(),
{
    if source.len() == 0 {
        Map::empty()
    } else {
        let before = filed_albums(source.drop_last());
        let album = source.last();
        if album.discs.len() == 1 {
            before.insert(album.catalog, album)
        } else {
            before
        }
    }
}

/// The table of discs: for each album of `source` that has several discs, one
/// album per disc, under the disc's catalog. Of two with one catalog, the later
/// one stays.
pub open spec fn filed_discs(source: Seq<AlbumView>) -> Map<Seq<char>, AlbumView>
    decreases source.len(),
{
    if source.len() == 0 {
        Map::empty()
    } else {
        let before = filed_discs(source.drop_last());
        let album = source.last();
        if album.discs.len() == 1 {
            before
        } else {
            with_discs(before, album, album.discs.len() as int)
        }
    }
}

/// The views of a list of categories with their keys.
pub open spec fn entry_views(entries: Seq<(String, Category)>) -> Seq<(Seq<char>, CategoryView)> {
    Seq::new(entries.len(), |i: int| (entries[i].0@, entries[i].1@))
}

/// The categories by key. Of two with one key, the later one stays.
pub open spec fn filed_categories(entries: Seq<(Seq<char>, CategoryView)>) -> Map<
    Seq<char>,
    CategoryView,
>
    decreases entries.len(),
{
    if entries.len() == 0 {
        Map::empty()
    } else {
        filed_categories(entries.drop_last()).insert(entries.last().0, entries.last().1)
    }
}

/// The keys of the categories, each once, in the order in which they first
/// occur.
pub open spec fn listed_keys(entries: Seq<(Seq<char>, CategoryView)>) -> Seq<Seq<char>>
    decreases entries.len(),
{
    if entries.len() == 0 {
        Seq::empty()
    } else {
        let before = listed_keys(entries.drop_last());
        if filed_categories(entries.drop_last()).contains_key(entries.last().0) {
            before
        } else {
            before.push(entries.last().0)
        }
    }
}

/// The views of the albums of a table.
pub open spec fn table_view(table: Map<Seq<char>, Album>) -> Map<Seq<char>, AlbumView> {
    Map::new(|k: Seq<char>| table.contains_key(k), |k: Seq<char>| table[k]@)
}

/// The views of the categories of a table.
pub open spec fn category_table_view(table: Map<Seq<char>, Category>) -> Map<
    Seq<char>,
    CategoryView,
> {
    Map::new(|k: Seq<char>| table.contains_key(k), |k: Seq<char>| table[k]@)
}

/// Every album of `table` has exactly one disc and is filed under its own
/// catalog.
pub open spec fn single_disc_table(table: Map<Seq<char>, AlbumView>) -> bool {
    forall|k: Seq<char>| #[trigger]
        table.contains_key(k) ==> table[k].discs.len() == 1 && table[k].catalog == k
}

/// Why a repository could not be indexed.
#[derive(Debug)]
pub enum LoadError {
    /// The album at `position` has no disc.
    NoDiscs { position: usize },
}

/// The index over one loaded repository. It is built once and only read
/// afterwards.
pub struct RepoManager {
    albums: StringHashMap<Album>,
    discs: StringHashMap<Album>,
    keys: Vec<String>,
    categories: StringHashMap<Category>,
}

/// Files each disc of `album` in `table` as an album of its own.
fn file_discs(table: &mut StringHashMap<Album>, album: Album)
    requires
        single_disc_table(table_view(old(table)@)),
    ensures
        table_view(final(table)@) == with_discs(
            table_view(old(table)@),
            album@,
            album@.discs.len() as int,
        ),
        single_disc_table(table_view(final(table)@)),
{
    let ghost whole = album@;
    let ghost start = table_view(table@);
    let Album { catalog: _, title: _, artist: _, release_date, discs } = album;
    let ghost all = discs@;
    assert(views(all) == whole.discs);
    let total: usize = discs.len();
    let mut i: usize = 0;
    for disc in it: discs
        invariant
            it.seq() == all,
            i == it.index(),
            all.len() == total,
            views(all) == whole.discs,
            whole.release_date == release_date,
            table_view(table@) == with_discs(start, whole, i as int),
            single_disc_table(table_view(table@)),
    {
        assert(i < all.len() && disc == all[i as int]);
        assert(disc@ == whole.discs[i as int]);
        let mut title = disc.title.clone();
        title.append(" [Disc ");
        push_decimal(&mut title, i + 1);
        title.append("]");
        let key = disc.catalog.clone();
        let unit = disc.into_album(title, release_date);
        assert(unit@ == disc_album(whole, i as int));
        let ghost before = table_view(table@);
        table.insert(key, unit);
        assert(table_view(table@) =~= before.insert(key@, unit@));
        i += 1;
    }
}

impl RepoManager {
    /// The table of whole albums, by catalog.
    pub closed spec fn album_table(&self) -> Map<Seq<char>, AlbumView> {
        table_view(self.albums@)
    }

    /// The table of albums made from single discs, by the disc's catalog.
    pub closed spec fn disc_table(&self) -> Map<Seq<char>, AlbumView> {
        table_view(self.discs@)
    }

    /// The categories, by key.
    pub closed spec fn category_table(&self) -> Map<Seq<char>, CategoryView> {
        category_table_view(self.categories@)
    }

    /// The keys of the categories, in the order in which they are listed.
    pub closed spec fn category_keys(&self) -> Seq<Seq<char>> {
        views(self.keys@)
    }

    /// The album that `catalog` addresses. Where a disc and a whole album share
    /// a catalog, the disc is found.
    pub open spec fn lookup(&self, catalog: Seq<char>) -> Option<AlbumView> {
        if self.disc_table().contains_key(catalog) {
            Some(self.disc_table()[catalog])
        } else if self.album_table().contains_key(catalog) {
            Some(self.album_table()[catalog])
        } else {
            None
        }
    }

    /// The category filed under `key`.
    pub open spec fn category(&self, key: Seq<char>) -> Option<CategoryView> {
        if self.category_table().contains_key(key) {
            Some(self.category_table()[key])
        } else {
            None
        }
    }

    /// What holds of every index: each addressable album has exactly one disc
    /// and is found under its own catalog, and the listed category keys are
    /// the keys of the category table, each once.
    pub open spec fn wf(&self) -> bool {
        &&& single_disc_table(self.album_table())
        &&& single_disc_table(self.disc_table())
        &&& self.category_keys().no_duplicates()
        &&& forall|k: Seq<char>|
            self.category_table().contains_key(k) <==> self.category_keys().contains(k)
    }

    /// Builds the index from the albums and categories of a repository, in the
    /// order given. Fails on the first album without a disc.
    pub fn new(albums: Vec<Album>, categories: Vec<(String, Category)>) -> (r: Result<
        RepoManager,
        LoadError,
    >)
        ensures
            r is Ok <==> forall|i: int| 0 <= i < albums.len() ==> albums[i].discs.len() > 0,
            match r {
                Ok(index) => {
                    &&& index.wf()
                    &&& index.album_table() == filed_albums(views(albums@))
                    &&& index.disc_table() == filed_discs(views(albums@))
                    &&& index.category_table() == filed_categories(entry_views(categories@))
                    &&& index.category_keys() == listed_keys(entry_views(categories@))
                },
                Err(LoadError::NoDiscs { position }) => {
                    &&& position < albums.len()
                    &&& albums[position as int].discs.len() == 0
                    &&& forall|i: int| 0 <= i < position ==> albums[i].discs.len() > 0
                },
            },
    {
        let ghost source = views(albums@);
        let ghost all = albums@;
        let total: usize = albums.len();
        let mut singles: StringHashMap<Album> = StringHashMap::new();
        let mut discs: StringHashMap<Album> = StringHashMap::new();
        assert(table_view(singles@) =~= filed_albums(source.take(0)));
        assert(table_view(discs@) =~= filed_discs(source.take(0)));
        let mut position: usize = 0;
        for album in it: albums
            invariant
                it.seq() == all,
                position == it.index(),
                all.len() == total,
                source == views(all),
                forall|i: int| 0 <= i < position ==> all[i].discs.len() > 0,
                table_view(singles@) == filed_albums(source.take(position as int)),
                table_view(discs@) == filed_discs(source.take(position as int)),
                single_disc_table(table_view(singles@)),
                single_disc_table(table_view(discs@)),
        {
            assert(position < all.len() && album == all[position as int]);
            proof {
                let next = source.take(position + 1);
                assert(next.drop_last() =~= source.take(position as int));
                assert(next.last() == album@);
                assert(album@.discs.len() == album.discs.len());
            }
            if album.discs.len() == 0 {
                return Err(LoadError::NoDiscs { position });
            }
            if album.discs.len() == 1 {
                let key = album.catalog.clone();
                let ghost before = table_view(singles@);
                let ghost unit = album@;
                singles.insert(key, album);
                assert(table_view(singles@) =~= before.insert(unit.catalog, unit));
            } else {
                file_discs(&mut discs, album);
            }
            position += 1;
        }
        assert(source.take(position as int) =~= source);

        let ghost entries = entry_views(categories@);
        let ghost given = categories@;
        let count: usize = categories.len();
        let mut keys: Vec<String> = Vec::new();
        let mut table: StringHashMap<Category> = StringHashMap::new();
        assert(category_table_view(table@) =~= filed_categories(entries.take(0)));
        assert(views(keys@) =~= listed_keys(entries.take(0)));
        let mut n: usize = 0;
        for entry in it: categories
            invariant
                it.seq() == given,
                n == it.index(),
                given.len() == count,
                entries == entry_views(given),
                category_table_view(table@) == filed_categories(entries.take(n as int)),
                views(keys@) == listed_keys(entries.take(n as int)),
                views(keys@).no_duplicates(),
                forall|k: Seq<char>|
                    category_table_view(table@).contains_key(k) <==> views(keys@).contains(k),
        {
            assert(n < given.len() && entry == given[n as int]);
            proof {
                let next = entries.take(n + 1);
                assert(next.drop_last() =~= entries.take(n as int));
                assert(next.last() == (entry.0@, entry.1@));
            }
            let (key, category) = entry;
            let ghost before = category_table_view(table@);
            let ghost keys_before = views(keys@);
            if !table.contains_key(key.as_str()) {
                keys.push(key.clone());
                assert(views(keys@) =~= keys_before.push(key@));
                assert(!keys_before.contains(key@));
                assert forall|a: int, b: int|
                    0 <= a < b < keys@.len() implies views(keys@)[a] != views(keys@)[b] by {
                    assert(keys_before[a] == views(keys@)[a]);
                    if b < keys_before.len() {
                        assert(keys_before[b] == views(keys@)[b]);
                    } else {
                        assert(keys_before.contains(keys_before[a]));
                    }
                }
            }
            table.insert(key, category);
            assert(category_table_view(table@) =~= before.insert(key@, category@));
            proof {
                assert forall|k: Seq<char>|
                    category_table_view(table@).contains_key(k) <==> views(keys@).contains(
                        k,
                    ) by {
                    if views(keys@).contains(k) {
                        let j = choose|j: int| 0 <= j < keys@.len() && views(keys@)[j] == k;
                        if j < keys_before.len() {
                            assert(keys_before[j] == k);
                        }
                    }
                    if keys_before.contains(k) {
                        let j = choose|j: int| 0 <= j < keys_before.len() && keys_before[j] == k;
                        assert(views(keys@)[j] == k);
                    }
                    if k == key@ {
                        assert(views(keys@).contains(k)) by {
                            if before.contains_key(k) {
                            } else {
                                assert(views(keys@)[keys@.len() - 1] == k);
                            }
                        }
                    }
                }
            }
            n += 1;
        }
        assert(entries.take(n as int) =~= entries);
        Ok(RepoManager { albums: singles, discs, keys, categories: table })
    }

    /// Finds the album that `catalog` addresses.
    pub fn load_album(&self, catalog: &str) -> (r: Option<&Album>)
        ensures
            match r {
                Some(album) => self.lookup(catalog@) == Some(album@),
                None => self.lookup(catalog@) is None,
            },
    {
        match self.discs.get(catalog) {
            Some(album) => Some(album),
            None => self.albums.get(catalog),
        }
    }

    /// Finds the category filed under `key`.
    pub fn load_category(&self, key: &str) -> (r: Option<&Category>)
        ensures
            match r {
                Some(category) => self.category(key@) == Some(category@),
                None => self.category(key@) is None,
            },
    {
        self.categories.get(key)
    }

    /// Lists the categories with their keys, in the order of `category_keys`.
    pub fn categories(&self) -> (r: Vec<(&str, &Category)>)
        requires
            self.wf(),
        ensures
            r.len() == self.category_keys().len(),
            forall|i: int|
                0 <= i < r.len() ==> (#[trigger] r[i]).0@ == self.category_keys()[i]
                    && self.category(self.category_keys()[i]) == Some(r[i].1@),
    {
        let mut out: Vec<(&str, &Category)> = Vec::new();
        let mut i: usize = 0;
        while i < self.keys.len()
            invariant
                self.wf(),
                i <= self.keys.len(),
                out.len() == i,
                forall|j: int|
                    0 <= j < i ==> (#[trigger] out[j]).0@ == self.category_keys()[j]
                        && self.category(self.category_keys()[j]) == Some(out[j].1@),
            decreases self.keys.len() - i,
        {
            let key: &str = self.keys[i].as_str();
            assert(self.category_keys()[i as int] == key@);
            assert(self.category_table().contains_key(key@)) by {
                assert(self.category_keys().contains(key@));
            }
            if let Some(category) = self.categories.get(key) {
                out.push((key, category));
            }
            i += 1;
        }
        out
    }
}

/// Whether `source` holds an album of exactly one disc with catalog `k`.
pub open spec fn whole_catalog(source: Seq<AlbumView>, k: Seq<char>) -> bool {
    exists|i: int|
        0 <= i < source.len() && (#[trigger] source[i]).discs.len() == 1 && source[i].catalog == k
}

/// Whether the disc at position `d` of the album at position `i` is filed as an
/// album of its own, under the catalog `k`.
pub open spec fn disc_at(source: Seq<AlbumView>, i: int, d: int, k: Seq<char>) -> bool {
    &&& 0 <= i < source.len()
    &&& source[i].discs.len() != 1
    &&& 0 <= d < source[i].discs.len()
    &&& source[i].discs[d].catalog == k
}

/// Whether `source` holds an album of several discs, one of which has the
/// catalog `k`.
pub open spec fn disc_catalog(source: Seq<AlbumView>, k: Seq<char>) -> bool {
    exists|i: int, d: int| #[trigger] disc_at(source, i, d, k)
}

proof fn lemma_with_discs_keys(
    table: Map<Seq<char>, AlbumView>,
    album: AlbumView,
    n: int,
    k: Seq<char>,
)
    requires
        0 <= n <= album.discs.len(),
    ensures
        with_discs(table, album, n).contains_key(k) <==> table.contains_key(k) || exists|d: int|
            0 <= d < n && (#[trigger] album.discs[d]).catalog == k,
        (forall|d: int| 0 <= d < n ==> (#[trigger] album.discs[d]).catalog != k) ==> with_discs(
            table,
            album,
            n,
        )[k] == table[k],
    decreases n,
{
    if n > 0 {
        lemma_with_discs_keys(table, album, n - 1, k);
        if album.discs[n - 1].catalog == k {
        } else if exists|d: int| 0 <= d < n && (#[trigger] album.discs[d]).catalog == k {
            let d = choose|d: int| 0 <= d < n && (#[trigger] album.discs[d]).catalog == k;
            assert(0 <= d < n - 1);
        }
    }
}

proof fn lemma_with_discs_value(table: Map<Seq<char>, AlbumView>, album: AlbumView, n: int, d: int)
    requires
        0 <= d < n <= album.discs.len(),
        forall|e: int|
            d < e < n ==> (#[trigger] album.discs[e]).catalog != album.discs[d].catalog,
    ensures
        with_discs(table, album, n).contains_key(album.discs[d].catalog),
        with_discs(table, album, n)[album.discs[d].catalog] == disc_album(album, d),
    decreases n,
{
    if d < n - 1 {
        lemma_with_discs_value(table, album, n - 1, d);
        assert(album.discs[n - 1].catalog != album.discs[d].catalog);
    }
}

/// The whole albums are filed under the catalogs of the albums of one disc, and
/// under no others.
pub proof fn whole_albums_are_filed_by_catalog(source: Seq<AlbumView>, k: Seq<char>)
    ensures
        filed_albums(source).contains_key(k) <==> whole_catalog(source, k),
    decreases source.len(),
{
    if source.len() > 0 {
        let before = source.drop_last();
        whole_albums_are_filed_by_catalog(before, k);
        if whole_catalog(before, k) {
            let i = choose|i: int|
                0 <= i < before.len() && (#[trigger] before[i]).discs.len() == 1
                    && before[i].catalog == k;
            assert(source[i] == before[i]);
        }
        if whole_catalog(source, k) {
            let i = choose|i: int|
                0 <= i < source.len() && (#[trigger] source[i]).discs.len() == 1
                    && source[i].catalog == k;
            if i < before.len() {
                assert(before[i] == source[i]);
            }
        }
    }
}

/// The discs are filed under the catalogs of the discs of the albums of several
/// discs, and under no others.
pub proof fn discs_are_filed_by_catalog(source: Seq<AlbumView>, k: Seq<char>)
    ensures
        filed_discs(source).contains_key(k) <==> disc_catalog(source, k),
    decreases source.len(),
{
    if source.len() > 0 {
        let before = source.drop_last();
        let album = source.last();
        let last = source.len() - 1;
        discs_are_filed_by_catalog(before, k);
        lemma_with_discs_keys(filed_discs(before), album, album.discs.len() as int, k);
        if disc_catalog(before, k) {
            let (i, d) = choose|i: int, d: int| #[trigger] disc_at(before, i, d, k);
            assert(source[i] == before[i]);
            assert(disc_at(source, i, d, k));
        }
        if album.discs.len() != 1 && exists|d: int|
            0 <= d < album.discs.len() && (#[trigger] album.discs[d]).catalog == k {
            let d = choose|d: int|
                0 <= d < album.discs.len() && (#[trigger] album.discs[d]).catalog == k;
            assert(disc_at(source, last, d, k));
        }
        if disc_catalog(source, k) {
            let (i, d) = choose|i: int, d: int| #[trigger] disc_at(source, i, d, k);
            if i < last {
                assert(before[i] == source[i]);
                assert(disc_at(before, i, d, k));
            } else {
                assert(album.discs[d].catalog == k);
            }
        }
    }
}

/// A catalog is a key of one of the two tables if and only if the repository
/// files something under it: a whole album, or a disc.
pub proof fn catalog_in_a_table_iff_filed(source: Seq<AlbumView>, k: Seq<char>)
    ensures
        filed_albums(source).contains_key(k) || filed_discs(source).contains_key(k)
            <==> whole_catalog(source, k) || disc_catalog(source, k),
{
    whole_albums_are_filed_by_catalog(source, k);
    discs_are_filed_by_catalog(source, k);
}

/// Every catalog under which the repository files something is a key of exactly
/// one of the two tables, provided that no catalog names both a whole album and
/// a disc: a whole album's catalog is a key of the table of whole albums only,
/// a disc's catalog of the table of discs only.
pub proof fn catalog_in_exactly_one_table(source: Seq<AlbumView>, k: Seq<char>)
    requires
        forall|c: Seq<char>| !(whole_catalog(source, c) && disc_catalog(source, c)),
        whole_catalog(source, k) || disc_catalog(source, k),
    ensures
        filed_albums(source).contains_key(k) != filed_discs(source).contains_key(k),
        filed_albums(source).contains_key(k) <==> whole_catalog(source, k),
        filed_discs(source).contains_key(k) <==> disc_catalog(source, k),
{
    whole_albums_are_filed_by_catalog(source, k);
    discs_are_filed_by_catalog(source, k);
}

/// An album of one disc is filed unchanged under its own catalog, unless a
/// later album of one disc has the same catalog.
pub proof fn whole_album_is_filed(source: Seq<AlbumView>, i: int)
    requires
        0 <= i < source.len(),
        source[i].discs.len() == 1,
        forall|j: int|
            i < j < source.len() && (#[trigger] source[j]).discs.len() == 1 ==> source[j].catalog
                != source[i].catalog,
    ensures
        filed_albums(source).contains_key(source[i].catalog),
        filed_albums(source)[source[i].catalog] == source[i],
    decreases source.len(),
{
    let before = source.drop_last();
    if i < source.len() - 1 {
        assert(before[i] == source[i]);
        assert forall|j: int|
            i < j < before.len() && (#[trigger] before[j]).discs.len() == 1 implies before[j].catalog
            != before[i].catalog by {
            assert(before[j] == source[j]);
        }
        whole_album_is_filed(before, i);
        assert(source.last() == source[source.len() - 1]);
    }
}

/// An album of `N` discs, `N` other than one, is filed as `N` albums of one
/// disc each: the disc at position `d` under its own catalog, titled with the
/// disc's title followed by ` [Disc ` and the number `d + 1` and `]`, and dated
/// as the album it came from. This holds of each disc whose catalog no later
/// disc shares.
pub proof fn disc_is_filed_as_album(source: Seq<AlbumView>, i: int, d: int)
    requires
        disc_at(source, i, d, source[i].discs[d].catalog),
        forall|j: int, e: int| #[trigger]
            disc_at(source, j, e, source[i].discs[d].catalog) ==> j < i || (j == i && e <= d),
    ensures
        filed_discs(source).contains_key(source[i].discs[d].catalog),
        filed_discs(source)[source[i].discs[d].catalog] == disc_album(source[i], d),
        disc_album(source[i], d).title == disc_title(source[i].discs[d].title, (d + 1) as nat),
        disc_album(source[i], d).release_date == source[i].release_date,
        disc_album(source[i], d).discs == seq![source[i].discs[d]],
    decreases source.len(),
{
    let k = source[i].discs[d].catalog;
    let before = source.drop_last();
    let album = source.last();
    let last = source.len() - 1;
    if i < last {
        assert(before[i] == source[i]);
        assert forall|j: int, e: int| #[trigger] disc_at(before, j, e, k) implies j < i || (j == i
            && e <= d) by {
            assert(before[j] == source[j]);
            assert(disc_at(source, j, e, k));
        }
        disc_is_filed_as_album(before, i, d);
        if album.discs.len() != 1 {
            assert forall|e: int| 0 <= e < album.discs.len() implies (#[trigger] album.discs[e]).catalog
                != k by {
                if album.discs[e].catalog == k {
                    assert(disc_at(source, last, e, k));
                }
            }
            lemma_with_discs_keys(filed_discs(before), album, album.discs.len() as int, k);
        }
    } else {
        assert forall|e: int| d < e < album.discs.len() implies (#[trigger] album.discs[e]).catalog
            != k by {
            if album.discs[e].catalog == k {
                assert(disc_at(source, last, e, k));
            }
        }
        lemma_with_discs_value(filed_discs(before), album, album.discs.len() as int, d);
    }
}

/// A category is filed unchanged under its key, unless a later category has the
/// same key.
pub proof fn category_is_filed(entries: Seq<(Seq<char>, CategoryView)>, i: int)
    requires
        0 <= i < entries.len(),
        forall|j: int| i < j < entries.len() ==> (#[trigger] entries[j]).0 != entries[i].0,
    ensures
        filed_categories(entries).contains_key(entries[i].0),
        filed_categories(entries)[entries[i].0] == entries[i].1,
    decreases entries.len(),
{
    let before = entries.drop_last();
    if i < entries.len() - 1 {
        assert(before[i] == entries[i]);
        assert forall|j: int| i < j < before.len() implies (#[trigger] before[j]).0
            != before[i].0 by {
            assert(before[j] == entries[j]);
        }
        category_is_filed(before, i);
        assert(entries.last() == entries[entries.len() - 1]);
    }
}

} // verus!
