use anni_sonic::metadata::{Album, Disc, ReleaseDate, Track, TrackType};
use anni_sonic::models;
use anni_sonic::repo::RepoManager;
use anni_sonic::sampling::{get_random_songs, pick_track, Sampling};

fn track(title: &str, track_type: TrackType) -> Track {
    Track { title: title.to_string(), artist: "Artist".to_string(), track_type }
}

fn single(catalog: &str, tracks: Vec<Track>) -> Album {
    Album {
        catalog: catalog.to_string(),
        title: format!("Album {}", catalog),
        artist: "Artist".to_string(),
        release_date: ReleaseDate { year: 2020, month: 1, day: 1 },
        discs: vec![Disc {
            catalog: catalog.to_string(),
            title: format!("Album {}", catalog),
            artist: "Artist".to_string(),
            tracks,
        }],
    }
}

fn strings(items: &[&str]) -> Vec<String> {
    items.iter().map(|s| s.to_string()).collect()
}

fn sample_repo() -> RepoManager {
    RepoManager::new(
        vec![
            single(
                "MIX",
                vec![
                    track("n", TrackType::Normal),
                    track("s", TrackType::Silence),
                    track("a", TrackType::Absolute),
                    track("o", TrackType::Other),
                ],
            ),
            single("QUIET", vec![track("s1", TrackType::Silence), track("o1", TrackType::Other)]),
            single("EMPTY", vec![]),
            single("ONE", vec![track("only", TrackType::Normal)]),
        ],
        vec![],
    )
    .unwrap()
}

fn leaf(title: &str) -> models::Track {
    models::Track {
        id: "X/1".to_string(),
        parent: "X".to_string(),
        is_dir: false,
        album: "X".to_string(),
        title: title.to_string(),
        artist: String::new(),
        track: 1,
        cover_art: "X".to_string(),
        path: String::new(),
        suffix: "flac".to_string(),
    }
}

#[test]
fn sampling_nothing_gives_nothing() {
    let repo = sample_repo();
    let songs = get_random_songs(&repo, &strings(&["MIX", "ONE"]), 0);
    assert!(songs.inner.is_empty());
}

#[test]
fn sampling_from_nothing_gives_nothing() {
    let repo = sample_repo();
    let songs = get_random_songs(&repo, &vec![], 10);
    assert!(songs.inner.is_empty());
}

#[test]
fn sampling_keeps_playable_tracks_only() {
    let repo = sample_repo();
    let available = strings(&["MIX", "QUIET", "EMPTY", "UNKNOWN", "ONE"]);
    for _ in 0..50 {
        let songs = get_random_songs(&repo, &available, 8);
        assert!(songs.inner.len() <= 8);
        for song in &songs.inner {
            let allowed = ["MIX/1", "MIX/3", "ONE/1"];
            assert!(allowed.contains(&song.id.as_str()), "unexpected track {}", song.id);
            assert!(!song.is_dir);
            assert_eq!(song.suffix, "flac");
            match song.id.as_str() {
                "MIX/1" => {
                    assert_eq!(song.title, "n");
                    assert_eq!(song.parent, "MIX");
                    assert_eq!(song.track, 1);
                    assert_eq!(song.album, "Album MIX");
                    assert_eq!(song.cover_art, "MIX");
                    assert_eq!(song.path, "[MIX] Album MIX/1");
                }
                "MIX/3" => {
                    assert_eq!(song.title, "a");
                    assert_eq!(song.track, 3);
                }
                _ => {
                    assert_eq!(song.title, "only");
                    assert_eq!(song.parent, "ONE");
                }
            }
        }
    }
}

#[test]
fn sampling_without_rejects_fills_the_request() {
    let repo = sample_repo();
    let songs = get_random_songs(&repo, &strings(&["ONE"]), 6);
    assert_eq!(songs.inner.len(), 6);
    for song in &songs.inner {
        assert_eq!(song.id, "ONE/1");
    }
}

#[test]
fn sampling_without_playable_tracks_gives_up() {
    let repo = sample_repo();
    let songs = get_random_songs(&repo, &strings(&["QUIET", "EMPTY", "UNKNOWN"]), 4);
    assert!(songs.inner.is_empty());
}

#[test]
fn sampling_draws_over_the_whole_range() {
    let repo = sample_repo();
    let available = strings(&["MIX", "ONE"]);
    let mut seen = std::collections::BTreeSet::new();
    for _ in 0..200 {
        for song in get_random_songs(&repo, &available, 10).inner {
            seen.insert(song.id);
        }
    }
    let seen: Vec<String> = seen.into_iter().collect();
    assert_eq!(seen, strings(&["MIX/1", "MIX/3", "ONE/1"]));
}

#[test]
fn pick_keeps_normal_and_absolute_tracks() {
    let album = single(
        "MIX",
        vec![
            track("n", TrackType::Normal),
            track("s", TrackType::Silence),
            track("a", TrackType::Absolute),
            track("o", TrackType::Other),
        ],
    );
    assert_eq!(pick_track("MIX", &album, 0).unwrap().id, "MIX/1");
    assert!(pick_track("MIX", &album, 1).is_none());
    assert_eq!(pick_track("MIX", &album, 2).unwrap().id, "MIX/3");
    assert!(pick_track("MIX", &album, 3).is_none());
    assert!(TrackType::Normal.is_playable());
    assert!(TrackType::Absolute.is_playable());
    assert!(!TrackType::Silence.is_playable());
    assert!(!TrackType::Other.is_playable());
}

#[test]
fn a_run_ends_after_five_attempts_for_each_track() {
    let mut run = Sampling::new(2);
    let mut attempts = 0;
    while !run.is_done() {
        run.record(None);
        attempts += 1;
    }
    assert_eq!(attempts, 10);
    run.record(Some(leaf("late")));
    assert!(run.finish().is_empty());
}

#[test]
fn a_run_ends_once_it_is_full() {
    let mut run = Sampling::new(2);
    assert!(!run.is_done());
    run.record(Some(leaf("first")));
    assert!(!run.is_done());
    run.record(None);
    assert!(!run.is_done());
    run.record(Some(leaf("second")));
    assert!(run.is_done());
    run.record(Some(leaf("third")));
    let songs = run.finish();
    let titles: Vec<&str> = songs.iter().map(|s| s.title.as_str()).collect();
    assert_eq!(titles, vec!["first", "second"]);
}

#[test]
fn a_run_for_nothing_is_over_at_once() {
    let mut run = Sampling::new(0);
    assert!(run.is_done());
    run.record(Some(leaf("never")));
    assert!(run.finish().is_empty());
}
