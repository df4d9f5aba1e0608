//! File paths of document URIs. What a URI's file path is, and whether one
//! path lies under another, is left to the crates that define them; their
//! answers are named here, and taken on trust.

use std::path::Path;
use std::str::FromStr;
use tower_lsp_server::lsp_types::Uri;
use tower_lsp_server::UriExt;
use vstd::prelude::*;

verus! {

/// The file path that `UriExt::to_file_path` of `tower_lsp_server` gives for
/// the URI that is written `uri`, on the platform that the library is built
/// for; `None` where `uri` is not the text of a URI, or the URI has no path.
pub uninterp spec fn uri_file_path(uri: Seq<char>) -> Option<Seq<char>>;

/// Whether `Path::starts_with` of the standard library finds that `path`
/// starts with `base`, both read as paths of the platform that the library
/// is built for: whether the components of `base` begin those of `path`.
pub uninterp spec fn path_starts_with(path: Seq<char>, base: Seq<char>) -> bool;

/// Whether `text` is short enough to be read as a URI: the parser gives up
/// with a panic on a text of more than `i32::MAX` bytes.
pub open spec fn parsable_length(text: Seq<char>) -> bool {
    vstd::utf8::encode_utf8(text).len() <= i32::MAX
}

/// Parses `uri` with `Uri::from_str` of `lsp_types` and converts it with
/// `UriExt::to_file_path` of `tower_lsp_server`. Trusted: that the outcome
/// depends on the text of `uri` alone. The parser panics on a text of more
/// than `i32::MAX` bytes, which is left out. The path that comes back was
/// decoded from text, so that writing it as a string loses nothing.
#[verifier::external_body]
pub(crate) fn file_path_of_uri(uri: &str) -> (path: Option<String>)
    requires
        parsable_length(uri@),
    ensures
        path is Some == uri_file_path(uri@) is Some,
        path matches Some(p) ==> uri_file_path(uri@) == Some(p@),
{
    let parsed = Uri::from_str(uri).ok()?;
    let path = parsed.to_file_path()?;
    Some(path.to_string_lossy().into_owned())
}

/// Calls `Path::starts_with` of the standard library on the two texts read as
/// paths. Trusted: that the outcome depends on the two texts alone.
#[verifier::external_body]
pub(crate) fn path_has_prefix(path: &str, base: &str) -> (r: bool)
    ensures
        r == path_starts_with(path@, base@),
{
    Path::new(path).starts_with(Path::new(base))
}

} // verus!
