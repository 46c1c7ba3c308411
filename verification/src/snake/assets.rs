//! The static files the game's web page is made of: which file a request
//! names and how its content is labelled.
use vstd::prelude::*;
use vstd::string::StringExecFns;

verus! {

/// What `mime_guess` gives as the content type of a path.
pub uninterp spec fn mime_type_text(path: Seq<char>) -> Seq<char>;

/// `mime_guess::from_path(path).first_or_octet_stream()`, as text: the
/// first content type known for the path's extension. The result is named;
/// as the documentation says, a path without an extension (here: without
/// any `.`) is `application/octet-stream`.
#[verifier::external_body]
fn mime_type(path: &str) -> (r: String)
    ensures
        r@ == mime_type_text(path@),
        !path@.contains('.') ==> r@ == "application/octet-stream"@,
{
    mime_guess::from_path(path).first_or_octet_stream().as_ref().to_string()
}

/// The file a request path names: the index page for the empty path.
pub open spec fn asset_path_text(path: Seq<char>) -> Seq<char> {
    if path.len() == 0 { "index.html"@ } else { path }
}

/// The file a request path names.
pub fn asset_path(path: &str) -> (r: String)
    ensures
        r@ == asset_path_text(path@),
{
    if path.unicode_len() == 0 {
        String::from_str("index.html")
    } else {
        String::from_str(path)
    }
}

/// The content type of a file, from its name.
pub fn content_type(path: &str) -> (r: String)
    ensures
        r@ == mime_type_text(path@),
        !path@.contains('.') ==> r@ == "application/octet-stream"@,
{
    mime_type(path)
}

} // verus!
