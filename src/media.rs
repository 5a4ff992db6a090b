use vstd::prelude::*;
use vstd::string::*;

verus! {

/// The media type of a file, decided by its extension alone, case-sensitively.
/// A missing or unknown extension gives the generic binary type.
pub open spec fn media_type_of(ext: Option<Seq<char>>) -> Seq<char> {
    match ext {
        None => "application/octet-stream"@,
        Some(e) => if e == "html"@ {
            "text/html"@
        } else if e == "css"@ {
            "text/css"@
        } else if e == "js"@ {
            "application/javascript"@
        } else if e == "png"@ {
            "image/png"@
        } else if e == "jpg"@ || e == "jpeg"@ {
            "image/jpeg"@
        } else if e == "gif"@ {
            "image/gif"@
        } else if e == "svg"@ {
            "image/svg+xml"@
        } else if e == "woff"@ {
            "font/woff"@
        } else if e == "woff2"@ {
            "font/woff2"@
        } else if e == "ttf"@ {
            "font/ttf"@
        } else if e == "otf"@ {
            "font/otf"@
        } else if e == "mp3"@ {
            "audio/mpeg"@
        } else if e == "wav"@ {
            "audio/wav"@
        } else if e == "ogg"@ {
            "audio/ogg"@
        } else if e == "mp4"@ {
            "video/mp4"@
        } else if e == "webm"@ {
            "video/webm"@
        } else if e == "json"@ {
            "application/json"@
        } else if e == "pdf"@ {
            "application/pdf"@
        } else if e == "ico"@ {
            "image/x-icon"@
        } else {
            "application/octet-stream"@
        },
    }
}

/// Exact, case-sensitive comparison of two strings, character by character.
pub fn str_eq(a: &str, b: &str) -> (r: bool)
    ensures
        r == (a@ == b@),
{
    let n = a.unicode_len();
    if n != b.unicode_len() {
        return false;
    }
    let mut i: usize = 0;
    while i < n
        invariant
            n == a@.len(),
            n == b@.len(),
            i <= n,
            forall|k: int| 0 <= k < i ==> a@[k] == b@[k],
        decreases n - i,
    {
        if a.get_char(i) != b.get_char(i) {
            return false;
        }
        i = i + 1;
    }
    assert(a@ =~= b@);
    true
}

/// The media type for a file with the given extension (`None` when the file
/// name has none).
pub fn media_type(ext: Option<&str>) -> (r: &'static str)
    ensures
        r@ == media_type_of(
            match ext {
                Some(e) => Some(e@),
                None => None,
            },
        ),
{
    match ext {
        None => "application/octet-stream",
        Some(e) => if str_eq(e, "html") {
            "text/html"
        } else if str_eq(e, "css") {
            "text/css"
        } else if str_eq(e, "js") {
            "application/javascript"
        } else if str_eq(e, "png") {
            "image/png"
        } else if str_eq(e, "jpg") || str_eq(e, "jpeg") {
            "image/jpeg"
        } else if str_eq(e, "gif") {
            "image/gif"
        } else if str_eq(e, "svg") {
            "image/svg+xml"
        } else if str_eq(e, "woff") {
            "font/woff"
        } else if str_eq(e, "woff2") {
            "font/woff2"
        } else if str_eq(e, "ttf") {
            "font/ttf"
        } else if str_eq(e, "otf") {
            "font/otf"
        } else if str_eq(e, "mp3") {
            "audio/mpeg"
        } else if str_eq(e, "wav") {
            "audio/wav"
        } else if str_eq(e, "ogg") {
            "audio/ogg"
        } else if str_eq(e, "mp4") {
            "video/mp4"
        } else if str_eq(e, "webm") {
            "video/webm"
        } else if str_eq(e, "json") {
            "application/json"
        } else if str_eq(e, "pdf") {
            "application/pdf"
        } else if str_eq(e, "ico") {
            "image/x-icon"
        } else {
            "application/octet-stream"
        },
    }
}

} // verus!
