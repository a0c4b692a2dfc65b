use anni_sonic::ids::{
    is_track_id, make_bucket_id, make_category_id, make_subcategory_id, make_track_id, parse_id,
    Address,
};

fn parts(id: &str) -> (&'static str, String, String) {
    match parse_id(id) {
        Address::Category { name } => ("category", name.to_string(), String::new()),
        Address::Bucket { name } => ("bucket", name.to_string(), String::new()),
        Address::Subcategory { name, position } => {
            ("subcategory", name.to_string(), position.to_string())
        }
        Address::Album { catalog } => ("album", catalog.to_string(), String::new()),
    }
}

#[test]
fn ids_with_leading_slash_name_categories() {
    assert_eq!(parts("/Anime"), ("category", "Anime".to_string(), String::new()));
    assert_eq!(parts("/Anime/"), ("bucket", "Anime".to_string(), String::new()));
    assert_eq!(parts("/Anime/3"), ("subcategory", "Anime".to_string(), "3".to_string()));
    assert_eq!(parts("/Anime/x"), ("subcategory", "Anime".to_string(), "x".to_string()));
    assert_eq!(parts("/"), ("category", String::new(), String::new()));
    assert_eq!(parts("//"), ("bucket", String::new(), String::new()));
    assert_eq!(parts("//1"), ("subcategory", String::new(), "1".to_string()));
}

#[test]
fn what_follows_a_third_slash_is_ignored() {
    assert_eq!(parts("/Anime/3/x"), ("subcategory", "Anime".to_string(), "3".to_string()));
    assert_eq!(parts("/Anime//x"), ("bucket", "Anime".to_string(), String::new()));
}

#[test]
fn other_ids_are_catalogs() {
    assert_eq!(parts("CAT-001"), ("album", "CAT-001".to_string(), String::new()));
    assert_eq!(parts("CAT-001/1"), ("album", "CAT-001/1".to_string(), String::new()));
    assert_eq!(parts(""), ("album", String::new(), String::new()));
}

#[test]
fn names_may_hold_any_other_character() {
    assert_eq!(parts("/アニメ/12"), ("subcategory", "アニメ".to_string(), "12".to_string()));
    assert_eq!(parts("/J Pop"), ("category", "J Pop".to_string(), String::new()));
}

#[test]
fn written_ids_have_the_documented_form() {
    assert_eq!(make_category_id("Anime"), "/Anime");
    assert_eq!(make_bucket_id("Anime"), "/Anime/");
    assert_eq!(make_subcategory_id("Anime", 0), "/Anime/0");
    assert_eq!(make_subcategory_id("Anime", 12), "/Anime/12");
    assert_eq!(make_track_id("CAT-001", 1), "CAT-001/1");
    assert_eq!(make_track_id("CAT-001", 10), "CAT-001/10");
}

#[test]
fn written_ids_are_read_back() {
    assert_eq!(
        parts(&make_category_id("Anime")),
        ("category", "Anime".to_string(), String::new())
    );
    assert_eq!(parts(&make_bucket_id("Anime")), ("bucket", "Anime".to_string(), String::new()));
    assert_eq!(
        parts(&make_subcategory_id("Anime", 7)),
        ("subcategory", "Anime".to_string(), "7".to_string())
    );
    assert!(is_track_id(&make_track_id("CAT-001", 3)));
}

#[test]
fn a_track_id_holds_exactly_one_slash() {
    assert!(is_track_id("CAT-001/1"));
    assert!(is_track_id("/"));
    assert!(is_track_id("a/"));
    assert!(!is_track_id("CAT-001"));
    assert!(!is_track_id(""));
    assert!(!is_track_id("a/b/c"));
    assert!(!is_track_id("//"));
}
