use anni_sonic::metadata::{Album, Category, Disc, ReleaseDate, Subcategory, Track, TrackType};
use anni_sonic::repo::{LoadError, RepoManager};

fn track(title: &str) -> Track {
    Track { title: title.to_string(), artist: "Singer".to_string(), track_type: TrackType::Normal }
}

fn disc(catalog: &str, title: &str, tracks: Vec<Track>) -> Disc {
    Disc {
        catalog: catalog.to_string(),
        title: title.to_string(),
        artist: "Disc Artist".to_string(),
        tracks,
    }
}

fn album(catalog: &str, title: &str, discs: Vec<Disc>) -> Album {
    Album {
        catalog: catalog.to_string(),
        title: title.to_string(),
        artist: "Album Artist".to_string(),
        release_date: ReleaseDate { year: 2021, month: 7, day: 14 },
        discs,
    }
}

fn category(name: &str, albums: &[&str]) -> Category {
    Category {
        name: name.to_string(),
        albums: albums.iter().map(|a| a.to_string()).collect(),
        subcategories: vec![],
    }
}

#[test]
fn album_of_one_disc_is_found_unchanged() {
    let repo = RepoManager::new(
        vec![album("CAT-001", "First", vec![disc("CAT-001", "First", vec![track("a"), track("b")])])],
        vec![],
    )
    .unwrap();
    let found = repo.load_album("CAT-001").unwrap();
    assert_eq!(found.catalog, "CAT-001");
    assert_eq!(found.title, "First");
    assert_eq!(found.artist, "Album Artist");
    assert_eq!(found.release_date, ReleaseDate { year: 2021, month: 7, day: 14 });
    assert_eq!(found.discs.len(), 1);
    assert_eq!(found.discs[0].tracks.len(), 2);
    assert_eq!(found.discs[0].tracks[1].title, "b");
    assert!(repo.load_album("CAT-002").is_none());
    assert!(repo.load_album("").is_none());
}

#[test]
fn discs_of_an_album_resolve_on_their_own() {
    let repo = RepoManager::new(
        vec![album(
            "CAT-002",
            "Double",
            vec![
                disc("CAT-002-1", "Disc A", vec![track("a1")]),
                disc("CAT-002-2", "Disc B", vec![track("b1"), track("b2")]),
            ],
        )],
        vec![],
    )
    .unwrap();
    let first = repo.load_album("CAT-002-1").unwrap();
    assert_eq!(first.title, "Disc A [Disc 1]");
    assert_eq!(first.catalog, "CAT-002-1");
    assert_eq!(first.artist, "Disc Artist");
    assert_eq!(first.release_date, ReleaseDate { year: 2021, month: 7, day: 14 });
    assert_eq!(first.discs.len(), 1);
    assert_eq!(first.discs[0].title, "Disc A");
    assert_eq!(first.discs[0].tracks.len(), 1);
    let second = repo.load_album("CAT-002-2").unwrap();
    assert_eq!(second.title, "Disc B [Disc 2]");
    assert_eq!(second.release_date, ReleaseDate { year: 2021, month: 7, day: 14 });
    assert_eq!(second.discs.len(), 1);
    assert_eq!(second.discs[0].tracks.len(), 2);
    assert!(repo.load_album("CAT-002").is_none());
}

#[test]
fn an_album_of_many_discs_gives_as_many_albums() {
    let discs: Vec<Disc> =
        (1..=12).map(|n| disc(&format!("BOX-{}", n), "Side", vec![track("t")])).collect();
    let repo = RepoManager::new(vec![album("BOX", "Box", discs)], vec![]).unwrap();
    for n in 1..=12 {
        let found = repo.load_album(&format!("BOX-{}", n)).unwrap();
        assert_eq!(found.title, format!("Side [Disc {}]", n));
        assert_eq!(found.discs.len(), 1);
    }
    assert!(repo.load_album("BOX-0").is_none());
    assert!(repo.load_album("BOX-13").is_none());
}

#[test]
fn an_album_without_discs_stops_the_load() {
    let loaded = RepoManager::new(
        vec![
            album("CAT-001", "First", vec![disc("CAT-001", "First", vec![])]),
            album("CAT-002", "Empty", vec![]),
            album("CAT-003", "Also empty", vec![]),
        ],
        vec![],
    );
    match loaded {
        Err(LoadError::NoDiscs { position }) => assert_eq!(position, 1),
        Ok(_) => panic!("an album without discs was indexed"),
    }
}

#[test]
fn an_empty_repository_loads() {
    let repo = RepoManager::new(vec![], vec![]).unwrap();
    assert!(repo.load_album("CAT-001").is_none());
    assert!(repo.load_category("Anime").is_none());
    assert!(repo.categories().is_empty());
}

#[test]
fn a_disc_wins_over_a_whole_album_with_its_catalog() {
    let single = album("SAME", "Whole", vec![disc("SAME", "Whole", vec![track("w")])]);
    let double = album(
        "DOUBLE",
        "Double",
        vec![disc("SAME", "Part", vec![track("p")]), disc("OTHER", "Rest", vec![track("r")])],
    );
    let repo = RepoManager::new(vec![double, single], vec![]).unwrap();
    assert_eq!(repo.load_album("SAME").unwrap().title, "Part [Disc 1]");

    let single = album("SAME", "Whole", vec![disc("SAME", "Whole", vec![track("w")])]);
    let double = album(
        "DOUBLE",
        "Double",
        vec![disc("SAME", "Part", vec![track("p")]), disc("OTHER", "Rest", vec![track("r")])],
    );
    let repo = RepoManager::new(vec![single, double], vec![]).unwrap();
    assert_eq!(repo.load_album("SAME").unwrap().title, "Part [Disc 1]");
}

#[test]
fn of_two_albums_with_one_catalog_the_later_stays() {
    let repo = RepoManager::new(
        vec![
            album("CAT", "Earlier", vec![disc("CAT", "Earlier", vec![])]),
            album("CAT", "Later", vec![disc("CAT", "Later", vec![])]),
        ],
        vec![],
    )
    .unwrap();
    assert_eq!(repo.load_album("CAT").unwrap().title, "Later");
}

#[test]
fn categories_are_listed_in_declared_order() {
    let repo = RepoManager::new(
        vec![],
        vec![
            ("Z".to_string(), category("Zed", &[])),
            ("A".to_string(), category("Ay", &["CAT-001"])),
            ("M".to_string(), category("Em", &[])),
        ],
    )
    .unwrap();
    let listed: Vec<(String, String)> =
        repo.categories().iter().map(|(k, c)| (k.to_string(), c.name.clone())).collect();
    assert_eq!(
        listed,
        vec![
            ("Z".to_string(), "Zed".to_string()),
            ("A".to_string(), "Ay".to_string()),
            ("M".to_string(), "Em".to_string()),
        ]
    );
    assert_eq!(repo.load_category("A").unwrap().albums, vec!["CAT-001".to_string()]);
    assert!(repo.load_category("Ay").is_none());
}

#[test]
fn of_two_categories_with_one_key_the_later_stays_in_the_first_place() {
    let mut later = category("Later", &[]);
    later.subcategories.push(Subcategory { name: "Sub".to_string(), albums: vec![] });
    let repo = RepoManager::new(
        vec![],
        vec![
            ("K".to_string(), category("Earlier", &[])),
            ("L".to_string(), category("Other", &[])),
            ("K".to_string(), later),
        ],
    )
    .unwrap();
    let listed: Vec<(String, String)> =
        repo.categories().iter().map(|(k, c)| (k.to_string(), c.name.clone())).collect();
    assert_eq!(
        listed,
        vec![("K".to_string(), "Later".to_string()), ("L".to_string(), "Other".to_string())]
    );
    assert_eq!(repo.load_category("K").unwrap().subcategories.len(), 1);
}

#[test]
fn every_catalog_is_filed_exactly_once() {
    let repo = RepoManager::new(
        vec![
            album("ONE", "One", vec![disc("ONE", "One", vec![track("a")])]),
            album(
                "TWO",
                "Two",
                vec![disc("TWO-1", "L", vec![track("b")]), disc("TWO-2", "R", vec![track("c")])],
            ),
        ],
        vec![],
    )
    .unwrap();
    assert_eq!(repo.load_album("ONE").unwrap().title, "One");
    assert_eq!(repo.load_album("TWO-1").unwrap().title, "L [Disc 1]");
    assert_eq!(repo.load_album("TWO-2").unwrap().title, "R [Disc 2]");
    assert!(repo.load_album("TWO").is_none());
}
