//! The envelope in which every answer is sent.

use vstd::prelude::*;

verus! {

/// The body of an answer that reports success, around `body`.
pub open spec fn ok_body(body: Seq<char>) -> Seq<char> {
    "<subsonic-response xmlns=\"http://subsonic.org/restapi\" status=\"ok\" version=\"1.15.0\">\n"@
        + body + "\n</subsonic-response>"@
}

/// The body of the answer to a request for `url`, where nothing is.
pub open spec fn gone_body(url: Seq<char>) -> Seq<char> {
    "<?xml version=\"1.0\" encoding=\"UTF-8\"?>\n<subsonic-response xmlns=\"http://subsonic.org/restapi\" status=\"failed\" version=\"1.15.0\">\n   <error code=\"30\" message=\""@
        + url + "\"/>\n</subsonic-response>"@
}

/// Wraps `body` in the envelope of an answer that reports success.
pub fn ok(body: String) -> (r: String)
    ensures
        r@ == ok_body(body@),
{
    let mut r = String::from_str(
        "<subsonic-response xmlns=\"http://subsonic.org/restapi\" status=\"ok\" version=\"1.15.0\">\n",
    );
    r.append(body.as_str());
    r.append("\n</subsonic-response>");
    r
}

/// Writes the body of the answer to a request for `url`, where nothing is.
/// The address is put in as it stands.
pub fn gone(url: &str) -> (r: String)
    ensures
        r@ == gone_body(url@),
{
    let mut r = String::from_str(
        "<?xml version=\"1.0\" encoding=\"UTF-8\"?>\n<subsonic-response xmlns=\"http://subsonic.org/restapi\" status=\"failed\" version=\"1.15.0\">\n   <error code=\"30\" message=\"",
    );
    r.append(url);
    r.append("\"/>\n</subsonic-response>");
    r
}

} // verus!
