//! Serving the bundled client application: which asset answers a request
//! path, and the headers it is sent with.
use vstd::prelude::*;

verus! {

/// The content type that mime_guess gives a path, from its extension.
pub uninterp spec fn mime_of(path: Seq<char>) -> Seq<char>;

/// Relies on `mime_guess::from_path(path).first_or_octet_stream()`: the
/// first content type registered for the path's extension, or
/// `application/octet-stream`; it depends on the path alone.
#[verifier::external_body]
fn guess_mime(path: &str) -> (r: String)
    ensures
        r@ == mime_of(path@),
{
    mime_guess::from_path(path).first_or_octet_stream().to_string()
}

/// The entry document served for paths that name no asset.
pub fn index_document() -> (r: &'static str)
    ensures
        r@ == "index.html"@,
{
    "index.html"
}

/// The index of the first character of `s` at or after `i` that is not a slash.
pub open spec fn first_non_slash(s: Seq<char>, i: int) -> int
    decreases s.len() - i,
{
    if i < 0 || i >= s.len() {
        s.len() as int
    } else if s[i] == '/' {
        first_non_slash(s, i + 1)
    } else {
        i
    }
}

/// A request path without its leading slashes.
pub open spec fn asset_key(s: Seq<char>) -> Seq<char> {
    s.subrange(first_non_slash(s, 0), s.len() as int)
}

/// The asset name that a request path asks for: the path with its leading
/// slashes removed.
pub fn request_asset(path: &str) -> (r: &str)
    ensures
        r@ == asset_key(path@),
{
    let n = path.unicode_len();
    let mut i: usize = 0;
    while i < n && path.get_char(i) == '/'
        invariant
            n == path@.len(),
            i <= n,
            first_non_slash(path@, 0) == first_non_slash(path@, i as int),
        decreases n - i,
    {
        i = i + 1;
    }
    path.substring_char(i, n)
}

/// Which asset answers a request.
#[derive(PartialEq, Eq, Structural, Clone, Copy, Debug)]
pub enum AssetChoice {
    /// The asset that the path names.
    Exact,
    /// The application's entry document.
    Index,
    /// Neither exists: not found.
    Missing,
}

/// The named asset when it exists, else the entry document when it
/// exists, else not found.
pub fn choose_asset(exact_found: bool, index_found: bool) -> (r: AssetChoice)
    ensures
        r == if exact_found {
            AssetChoice::Exact
        } else if index_found {
            AssetChoice::Index
        } else {
            AssetChoice::Missing
        },
{
    if exact_found {
        AssetChoice::Exact
    } else if index_found {
        AssetChoice::Index
    } else {
        AssetChoice::Missing
    }
}

/// The headers an asset is sent with.
pub struct AssetHeaders {
    pub content_type: String,
    pub cache_control: String,
}

/// The headers for the asset at `path`: the content type guessed from its
/// extension and a cache directive of one hour.
pub fn asset_headers(path: &str) -> (r: AssetHeaders)
    ensures
        r.content_type@ == mime_of(path@),
        r.cache_control@ == "public, max-age=3600"@,
{
    AssetHeaders { content_type: guess_mime(path), cache_control: "public, max-age=3600".to_owned() }
}

} // verus!
