//! Content types and texts of the bundled front-end files.

use vstd::prelude::*;
use vstd::utf8::{valid_utf8, decode_utf8};

verus! {

/// What `std::path::Path::extension` reports for a path, when it is valid
/// UTF-8 (it always is for a path made from a `str`).
pub uninterp spec fn path_extension(p: Seq<char>) -> Option<Seq<char>>;

/// Relies on `std::path::Path::extension` followed by `OsStr::to_str`: the
/// extension of the path's last component, if it has one; the result depends
/// on the path alone.
#[verifier::external_body]
fn extension_of(path: &str) -> (r: Option<String>)
    ensures
        match r {
            Some(e) => path_extension(path@) == Some(e@),
            None => path_extension(path@) is None,
        },
{
    let ext = std::path::Path::new(path).extension()?;
    Some(ext.to_str()?.to_string())
}

/// Relies on `std::str::from_utf8`: the text that valid UTF-8 bytes encode,
/// and an error for any other bytes.
#[verifier::external_body]
fn utf8_text(bytes: &[u8]) -> (r: Option<String>)
    ensures
        r is Some <==> valid_utf8(bytes@),
        r matches Some(s) ==> s@ == decode_utf8(bytes@),
{
    Some(std::str::from_utf8(bytes).ok()?.to_string())
}

/// The content type served for a file with the given extension.
pub open spec fn content_type_of(ext: Option<Seq<char>>) -> Seq<char> {
    match ext {
        Some(e) => if e == "html"@ {
            "text/html; charset=utf-8"@
        } else if e == "css"@ {
            "text/css; charset=utf-8"@
        } else if e == "js"@ {
            "application/javascript; charset=utf-8"@
        } else if e == "svg"@ {
            "image/svg+xml"@
        } else if e == "png"@ {
            "image/png"@
        } else if e == "json"@ {
            "application/json"@
        } else {
            "application/octet-stream"@
        },
        None => "application/octet-stream"@,
    }
}

/// Whether two texts hold the same characters.
pub fn same_text(a: &str, b: &str) -> (r: bool)
    ensures
        r == (a@ == b@),
{
    let n = a.unicode_len();
    if n != b.unicode_len() {
        return false;
    }
    let mut i: usize = 0;
    while i < n
        invariant
            n == a@.len() == b@.len(),
            i <= n,
            forall|k: int| 0 <= k < i ==> a@[k] == b@[k],
        decreases n - i,
    {
        if a.get_char(i) != b.get_char(i) {
            return false;
        }
        i = i + 1;
    }
    assert(a@ =~= b@);
    true
}

/// The content type served for a file with the given extension.
pub fn content_type_for_extension(ext: Option<&str>) -> (r: &'static str)
    ensures
        r@ == content_type_of(
            match ext {
                Some(e) => Some(e@),
                None => None,
            },
        ),
{
    match ext {
        Some(e) => if same_text(e, "html") {
            "text/html; charset=utf-8"
        } else if same_text(e, "css") {
            "text/css; charset=utf-8"
        } else if same_text(e, "js") {
            "application/javascript; charset=utf-8"
        } else if same_text(e, "svg") {
            "image/svg+xml"
        } else if same_text(e, "png") {
            "image/png"
        } else if same_text(e, "json") {
            "application/json"
        } else {
            "application/octet-stream"
        },
        None => "application/octet-stream",
    }
}

/// The content type served for a file at `path`, chosen by its extension.
pub fn content_type_for(path: &str) -> (r: &'static str)
    ensures
        r@ == content_type_of(path_extension(path@)),
{
    match extension_of(path) {
        Some(e) => content_type_for_extension(Some(e.as_str())),
        None => content_type_for_extension(None),
    }
}

/// The text served in place of a file that is absent or not UTF-8.
pub const MISSING_ASSET: &'static str = "missing asset";

/// The text of a bundled file, given what a lookup of it found: its UTF-8
/// text, or a placeholder where it is absent or not UTF-8.
pub fn get_asset(found: Option<&[u8]>) -> (r: String)
    ensures
        match found {
            Some(b) => if valid_utf8(b@) {
                r@ == decode_utf8(b@)
            } else {
                r@ == MISSING_ASSET@
            },
            None => r@ == MISSING_ASSET@,
        },
{
    match found {
        Some(b) => match utf8_text(b) {
            Some(s) => s,
            None => String::from_str(MISSING_ASSET),
        },
        None => String::from_str(MISSING_ASSET),
    }
}

} // verus!
