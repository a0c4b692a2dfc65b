//! What the backend can serve, as it was found when the server started.

use crate::text::{contains, views};
use vstd::prelude::*;

verus! {

/// The items of `listed`, each once, in the order in which they first occur.
pub open spec fn distinct(listed: Seq<Seq<char>>) -> Seq<Seq<char>>
    decreases listed.len(),
{
    if listed.len() == 0 {
        Seq::empty()
    } else {
        let before = distinct(listed.drop_last());
        if before.contains(listed.last()) {
            before
        } else {
            before.push(listed.last())
        }
    }
}

/// `distinct` keeps every item and repeats none.
pub proof fn distinct_keeps_each_once(listed: Seq<Seq<char>>)
    ensures
        distinct(listed).no_duplicates(),
        forall|c: Seq<char>|
            #![trigger distinct(listed).contains(c)]
            #![trigger listed.contains(c)]
            distinct(listed).contains(c) <==> listed.contains(c),
    decreases listed.len(),
{
    if listed.len() > 0 {
        let front = listed.drop_last();
        let before = distinct(front);
        let after = distinct(listed);
        distinct_keeps_each_once(front);
        assert forall|c: Seq<char>|
            #![trigger after.contains(c)]
            #![trigger listed.contains(c)]
            after.contains(c) <==> listed.contains(c) by {
            if after.contains(c) {
                let j = choose|j: int| 0 <= j < after.len() && after[j] == c;
                if j < before.len() {
                    assert(before[j] == c);
                    assert(before.contains(c));
                    assert(front.contains(c));
                    let k = choose|k: int| 0 <= k < front.len() && front[k] == c;
                    assert(listed[k] == c);
                } else {
                    assert(listed[listed.len() - 1] == c);
                }
            }
            if listed.contains(c) {
                let k = choose|k: int| 0 <= k < listed.len() && listed[k] == c;
                if k < front.len() {
                    assert(front[k] == c);
                    assert(front.contains(c));
                    assert(before.contains(c));
                    let j = choose|j: int| 0 <= j < before.len() && before[j] == c;
                    assert(after[j] == c);
                } else if before.contains(c) {
                } else {
                    assert(after[after.len() - 1] == c);
                }
            }
        }
    }
}

/// The catalogs that the backend listed, each once.
pub struct SonicBackend {
    albums: Vec<String>,
}

impl SonicBackend {
    /// The catalogs, in the order in which the backend first listed them.
    pub closed spec fn catalogs(&self) -> Seq<Seq<char>> {
        views(self.albums@)
    }

    /// Keeps what the backend listed, each catalog once.
    pub fn new(listed: Vec<String>) -> (r: SonicBackend)
        ensures
            r.catalogs() == distinct(views(listed@)),
    {
        let ghost all = listed@;
        let total: usize = listed.len();
        let mut albums: Vec<String> = Vec::new();
        let mut n: usize = 0;
        assert(views(albums@) =~= distinct(views(all).take(0)));
        for catalog in it: listed
            invariant
                it.seq() == all,
                n == it.index(),
                all.len() == total,
                views(albums@) == distinct(views(all).take(n as int)),
        {
            assert(n < all.len() && catalog == all[n as int]);
            proof {
                let next = views(all).take(n + 1);
                assert(next.drop_last() =~= views(all).take(n as int));
                assert(next.last() == catalog@);
            }
            let ghost before = views(albums@);
            if !contains(&albums, &catalog) {
                albums.push(catalog);
                assert(views(albums@) =~= before.push(catalog@));
            }
            n += 1;
        }
        assert(views(all).take(n as int) =~= views(all));
        SonicBackend { albums }
    }

    /// The catalogs that the backend can serve.
    pub fn albums(&self) -> (r: &Vec<String>)
        ensures
            views(r@) == self.catalogs(),
    {
        &self.albums
    }
}

} // verus!
