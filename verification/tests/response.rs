use anni_sonic::response::{gone, ok};

#[test]
fn ok_wraps_body_in_envelope() {
    assert_eq!(
        ok(String::new()),
        "<subsonic-response xmlns=\"http://subsonic.org/restapi\" status=\"ok\" version=\"1.15.0\">\n\n</subsonic-response>"
    );
    assert_eq!(
        ok("<playlists></playlists>".to_owned()),
        r#"<subsonic-response xmlns="http://subsonic.org/restapi" status="ok" version="1.15.0">
<playlists></playlists>
</subsonic-response>"#
    );
}

#[test]
fn gone_names_the_address() {
    assert_eq!(
        gone("/rest/nothing.view"),
        r#"<?xml version="1.0" encoding="UTF-8"?>
<subsonic-response xmlns="http://subsonic.org/restapi" status="failed" version="1.15.0">
   <error code="30" message="/rest/nothing.view"/>
</subsonic-response>"#
    );
}
