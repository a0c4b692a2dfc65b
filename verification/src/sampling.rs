//! Picking tracks at random from what the backend can serve.
//!
//! A run makes a bounded number of attempts. Each attempt draws one of the
//! available catalogs and then one track of its album, and keeps the track if
//! it is playable. A run may therefore end with fewer tracks than were asked
//! for, and may hold a track more than once.

use crate::browse::{make_track_entry, track_entry};
use crate::metadata;
use crate::models;
use crate::models::RandomSongs;
use crate::repo::RepoManager;
use crate::text::views;
use vstd::prelude::*;

verus! {

#[verifier::external_type_specification]
#[verifier::external_body]
pub struct ExThreadRng(rand::rngs::ThreadRng);

/// `rand::thread_rng`: the random number generator of the current thread.
/// Nothing is claimed of it. It panics if the operating system cannot seed the
/// generator.
#[verifier::external_body]
fn thread_rng() -> rand::rngs::ThreadRng {
    rand::thread_rng()
}

/// `rand::Rng::gen_range` on the range `0..bound`. The range must not be empty,
/// or `gen_range` panics. Whatever number comes back lies in the range; which
/// one is left open.
#[verifier::external_body]
fn gen_below(rng: &mut rand::rngs::ThreadRng, bound: usize) -> (r: usize)
    requires
        bound > 0,
    ensures
        r < bound,
{
    rand::Rng::gen_range(rng, 0..bound)
}

/// How many attempts a run makes for each track that is asked for.
pub const ATTEMPTS_PER_TRACK: u128 = 5;

/// The track that an attempt gives: the track at position `i` of the one disc
/// of `album`, which was drawn under `catalog`, if that track is playable.
pub open spec fn accepted(catalog: Seq<char>, album: metadata::AlbumView, i: int) -> Option<
    models::TrackView,
> {
    if album.discs[0].tracks[i].track_type.playable() {
        Some(track_entry(catalog, album, i))
    } else {
        None
    }
}

/// Whether `track` is the entry of the playable track at position `i` of the
/// album that the catalog at position `p` of `available` addresses.
pub open spec fn drawn_at(
    repo: &RepoManager,
    available: Seq<Seq<char>>,
    p: int,
    i: int,
    track: models::TrackView,
) -> bool {
    &&& 0 <= p < available.len()
    &&& repo.lookup(available[p]) is Some
    &&& 0 <= i < repo.lookup(available[p])->0.discs[0].tracks.len()
    &&& accepted(available[p], repo.lookup(available[p])->0, i) == Some(track)
}

/// Whether `track` is the entry of a playable track of an album that one of
/// the available catalogs addresses.
pub open spec fn drawn(repo: &RepoManager, available: Seq<Seq<char>>, track: models::TrackView)
    -> bool {
    exists|p: int, i: int| #[trigger] drawn_at(repo, available, p, i, track)
}

/// Whether no attempt can be lost, whatever is drawn: every available catalog
/// addresses an album that has tracks, and all of them are playable.
pub open spec fn every_draw_kept(repo: &RepoManager, available: Seq<Seq<char>>) -> bool {
    forall|p: int|
        0 <= p < available.len() ==> {
            &&& repo.lookup(#[trigger] available[p]) is Some
            &&& repo.lookup(available[p])->0.discs[0].tracks.len() > 0
            &&& forall|i: int|
                0 <= i < repo.lookup(available[p])->0.discs[0].tracks.len() ==> (
                #[trigger] repo.lookup(available[p])->0.discs[0].tracks[i]).track_type.playable()
        }
}

/// Decides what an attempt gives, once a catalog and a track were drawn.
pub fn pick_track(catalog: &str, album: &metadata::Album, i: usize) -> (r: Option<models::Track>)
    requires
        album.discs.len() > 0,
        i < album.discs[0].tracks.len(),
    ensures
        match r {
            Some(track) => accepted(catalog@, album@, i as int) == Some(track@),
            None => accepted(catalog@, album@, i as int) is None,
        },
{
    if album.discs[0].tracks[i].track_type.is_playable() {
        Some(make_track_entry(catalog, album, i))
    } else {
        None
    }
}

/// The state of one run: how many tracks are wanted, how many attempts were
/// made, and the tracks kept so far.
pub struct Sampling {
    size: usize,
    tries: u128,
    songs: Vec<models::Track>,
}

impl Sampling {
    /// How many tracks the run was asked for.
    pub closed spec fn size(&self) -> nat {
        self.size as nat
    }

    /// How many attempts the run has made.
    pub closed spec fn tries(&self) -> nat {
        self.tries as nat
    }

    /// The tracks that the run has kept, in the order of the attempts.
    pub closed spec fn songs(&self) -> Seq<models::TrackView> {
        views(self.songs@)
    }

    /// A run makes no more attempts than five for each track wanted, and keeps
    /// no more tracks than were wanted.
    pub open spec fn wf(&self) -> bool {
        &&& self.tries() <= ATTEMPTS_PER_TRACK * self.size()
        &&& self.songs().len() <= self.size()
    }

    /// A run is over once it holds as many tracks as were wanted, or has made
    /// five attempts for each track wanted.
    pub open spec fn done(&self) -> bool {
        self.songs().len() >= self.size() || self.tries() >= ATTEMPTS_PER_TRACK * self.size()
    }

    /// Starts a run for `size` tracks.
    pub fn new(size: usize) -> (run: Sampling)
        ensures
            run.wf(),
            run.size() == size,
            run.tries() == 0,
            run.songs() == Seq::<models::TrackView>::empty(),
    {
        let run = Sampling { size, tries: 0, songs: Vec::new() };
        assert(run.songs() =~= Seq::<models::TrackView>::empty());
        run
    }

    /// Says whether the run is over.
    pub fn is_done(&self) -> (r: bool)
        requires
            self.wf(),
        ensures
            r == self.done(),
    {
        self.songs.len() >= self.size || self.tries >= ATTEMPTS_PER_TRACK * (self.size as u128)
    }

    /// Counts one attempt and keeps the track that it gave, if any. A run that
    /// is over stays as it is.
    pub fn record(&mut self, outcome: Option<models::Track>)
        requires
            old(self).wf(),
        ensures
            final(self).wf(),
            final(self).size() == old(self).size(),
            old(self).done() ==> final(self).tries() == old(self).tries() && final(self).songs()
                == old(self).songs(),
            !old(self).done() ==> final(self).tries() == old(self).tries() + 1,
            !old(self).done() ==> final(self).songs() == (match outcome {
                Some(track) => old(self).songs().push(track@),
                None => old(self).songs(),
            }),
    {
        if self.is_done() {
            return ;
        }
        self.tries = self.tries + 1;
        match outcome {
            Some(track) => {
                self.songs.push(track);
                assert(self.songs() =~= old(self).songs().push(track@));
            },
            None => {},
        }
    }

    /// Ends the run and hands out the tracks that it kept.
    pub fn finish(self) -> (songs: Vec<models::Track>)
        ensures
            views(songs@) == self.songs(),
    {
        self.songs
    }
}

/// Picks up to `size` playable tracks at random from the albums that the
/// backend can serve. Every track of the result is a playable track of an
/// album that one of the `available` catalogs addresses. With nothing
/// available, or nothing asked for, the result is empty.
///
/// An attempt is lost when the index does not know the catalog drawn, when the
/// album has no track, or when the track drawn is not playable. How many
/// tracks come back therefore hangs on what is drawn, except at the two ends:
/// where no attempt can be lost the result holds exactly `size` tracks, and
/// where no available album has a playable track it holds none.
pub fn get_random_songs(repo: &RepoManager, available: &Vec<String>, size: usize) -> (r:
    RandomSongs)
    requires
        repo.wf(),
    ensures
        r.inner.len() <= size,
        size == 0 ==> r.inner.len() == 0,
        available.len() == 0 ==> r.inner.len() == 0,
        forall|k: int|
            0 <= k < r.inner.len() ==> drawn(repo, views(available@), #[trigger] r.inner[k]@),
        available.len() > 0 && every_draw_kept(repo, views(available@)) ==> r.inner.len() == size,
        (forall|track: models::TrackView| !drawn(repo, views(available@), track)) ==> r.inner.len()
            == 0,
{
    let mut run = Sampling::new(size);
    if available.len() == 0 {
        return RandomSongs { inner: run.finish() };
    }
    let mut rng = thread_rng();
    while !run.is_done()
        invariant
            repo.wf(),
            run.wf(),
            run.size() == size,
            available.len() > 0,
            every_draw_kept(repo, views(available@)) ==> run.songs().len() == run.tries(),
            forall|k: int|
                0 <= k < run.songs().len() ==> drawn(
                    repo,
                    views(available@),
                    #[trigger] run.songs()[k],
                ),
        decreases ATTEMPTS_PER_TRACK * size - run.tries(),
    {
        let p: usize = gen_below(&mut rng, available.len());
        let catalog = available[p].as_str();
        assert(views(available@)[p as int] == catalog@);
        let outcome = match repo.load_album(catalog) {
            Some(album) => {
                let count: usize = album.discs[0].tracks.len();
                if count == 0 {
                    None
                } else {
                    let i: usize = gen_below(&mut rng, count);
                    let picked = pick_track(catalog, album, i);
                    proof {
                        if picked is Some {
                            assert(views(available@)[p as int] == catalog@);
                            assert(drawn_at(
                                repo,
                                views(available@),
                                p as int,
                                i as int,
                                picked->0@,
                            ));
                        }
                    }
                    picked
                }
            },
            None => None,
        };
        assert(every_draw_kept(repo, views(available@)) ==> outcome is Some);
        run.record(outcome);
    }
    let inner = run.finish();
    proof {
        if inner.len() > 0 {
            assert(inner[0]@ == views(inner@)[0]);
        }
    }
    assert forall|k: int| 0 <= k < inner.len() implies drawn(
        repo,
        views(available@),
        #[trigger] inner[k]@,
    ) by {
        assert(inner[k]@ == views(inner@)[k]);
    }
    RandomSongs { inner }
}

} // verus!
