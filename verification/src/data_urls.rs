//! Reading data URLs of inline images, and telling a missing uploaded file
//! from other provider errors.

use vstd::prelude::*;
use crate::text::{
    ascii_lower, chars_to_string, occurs_at, contains, contains_seq, find, find_from, first_occ,
    first_occ_from, has_prefix, lower_ascii, starts_with, str_chars, sub_chars,
};

verus! {

/// The part of `s` after the first `p`, up to the next `p` or the end
/// (`s.split(p).nth(1)`), where `p` occurs.
pub open spec fn second_segment(s: Seq<char>, p: Seq<char>) -> Option<Seq<char>> {
    match first_occ(s, p) {
        None => None,
        Some(i) => {
            let a = i + p.len();
            Some(
                match first_occ_from(s, p, a) {
                    Some(j) => s.subrange(a, j),
                    None => s.subrange(a, s.len() as int),
                },
            )
        },
    }
}

/// The part of `s` before the first `p`, or all of `s` (`s.split(p).next()`).
pub open spec fn first_segment(s: Seq<char>, p: Seq<char>) -> Seq<char> {
    match first_occ(s, p) {
        Some(i) => s.subrange(0, i),
        None => s,
    }
}

/// The media type of a `data:` URL up to `;base64,`, `image/jpeg` where
/// the URL is not a data URL or names none.
pub open spec fn data_url_mime(url: Seq<char>) -> Seq<char> {
    if starts_with(url, "data:"@) {
        let m = first_segment(url.skip("data:"@.len() as int), ";base64,"@);
        if m.len() > 0 {
            m
        } else {
            "image/jpeg"@
        }
    } else {
        "image/jpeg"@
    }
}

/// The payload of a data URL after `;base64,`, up to a next one; empty
/// where there is none.
pub open spec fn data_url_payload(url: Seq<char>) -> Seq<char> {
    match second_segment(url, ";base64,"@) {
        Some(x) => x,
        None => Seq::empty(),
    }
}

/// The media type of a `data:` URL up to the first `;`, `image/png` where
/// the URL is not a data URL or has no `;`.
pub open spec fn data_url_mime_to_semicolon(url: Seq<char>) -> Seq<char> {
    if starts_with(url, "data:"@) {
        let rest = url.skip("data:"@.len() as int);
        match first_occ(rest, ";"@) {
            Some(i) => rest.subrange(0, i),
            None => "image/png"@,
        }
    } else {
        "image/png"@
    }
}

/// The part of a URL after its first comma, or the whole URL.
pub open spec fn data_url_after_comma(url: Seq<char>) -> Seq<char> {
    match first_occ(url, ","@) {
        Some(i) => url.skip(i + 1),
        None => url,
    }
}

/// The media type of an inline image's data URL.
pub fn image_mime_type_from_data_url(url: &str) -> (r: String)
    ensures
        r@ == data_url_mime(url@),
{
    let u = str_chars(url);
    let head = str_chars("data:");
    if !has_prefix(&u, &head) {
        return "image/jpeg".to_owned();
    }
    let rest = sub_chars(&u, head.len(), u.len());
    assert(rest@ =~= url@.skip("data:"@.len() as int));
    let sep = str_chars(";base64,");
    let m = match find(&rest, &sep) {
        Some(i) => sub_chars(&rest, 0, i),
        None => rest,
    };
    if m.len() > 0 {
        chars_to_string(&m)
    } else {
        "image/jpeg".to_owned()
    }
}

/// The base64 payload of an inline image's data URL.
pub fn image_base64_from_data_url(url: &str) -> (r: String)
    ensures
        r@ == data_url_payload(url@),
{
    let u = str_chars(url);
    let sep = str_chars(";base64,");
    match find(&u, &sep) {
        None => String::new(),
        Some(i) => {
            let n = u.len();
            assert(occurs_at(u@, sep@, i as int));
            let a = i + sep.len();
            let end = match find_from(&u, &sep, a) {
                Some(j) => {
                    proof {
                        crate::text::lemma_first_occ_from(u@, sep@, a as int);
                    }
                    j
                },
                None => u.len(),
            };
            chars_to_string(&sub_chars(&u, a, end))
        },
    }
}

/// The media type of an image's data URL, up to the first `;`.
pub fn claude_image_mime_type_from_data_url(data_url: &str) -> (r: String)
    ensures
        r@ == data_url_mime_to_semicolon(data_url@),
{
    let u = str_chars(data_url);
    let head = str_chars("data:");
    if !has_prefix(&u, &head) {
        return "image/png".to_owned();
    }
    let rest = sub_chars(&u, head.len(), u.len());
    assert(rest@ =~= data_url@.skip("data:"@.len() as int));
    match find(&rest, &str_chars(";")) {
        Some(i) => chars_to_string(&sub_chars(&rest, 0, i)),
        None => "image/png".to_owned(),
    }
}

/// The data of an image's data URL: what follows the first comma.
pub fn claude_image_base64_from_data_url(data_url: &str) -> (r: String)
    ensures
        r@ == data_url_after_comma(data_url@),
{
    let u = str_chars(data_url);
    match find(&u, &str_chars(",")) {
        Some(i) => {
            proof {
                reveal_strlit(",");
            }
            let n = u.len();
            assert(occurs_at(u@, ","@, i as int));
            chars_to_string(&sub_chars(&u, i + 1, n))
        },
        None => data_url.to_owned(),
    }
}

// ---------------------------------------------------------------------------
// Missing uploaded files
// ---------------------------------------------------------------------------

/// The error, in ASCII lower case, names one of `things` and says it is
/// not found, invalid or expired.
pub open spec fn names_missing(error: Seq<char>, things: Seq<Seq<char>>) -> bool {
    let l = ascii_lower(error);
    (exists|i: int| 0 <= i < things.len() && contains(l, #[trigger] things[i])) && (contains(
        l,
        "not found"@,
    ) || contains(l, "invalid"@) || contains(l, "expired"@))
}

fn missing(error: &str, things: &Vec<&str>) -> (r: bool)
    ensures
        r == names_missing(error@, things@.map_values(|t: &str| t@)),
{
    let l = lower_ascii(&str_chars(error));
    let ghost ts = things@.map_values(|t: &str| t@);
    let mut named = false;
    let mut i: usize = 0;
    while i < things.len()
        invariant
            i <= things.len(),
            l@ == ascii_lower(error@),
            ts == things@.map_values(|t: &str| t@),
            named == exists|k: int| 0 <= k < i && contains(l@, #[trigger] ts[k]),
        decreases things.len() - i,
    {
        if contains_seq(&l, &str_chars(things[i])) {
            assert(ts[i as int] == things@[i as int]@);
            named = true;
        }
        i += 1;
    }
    named && (contains_seq(&l, &str_chars("not found")) || contains_seq(&l, &str_chars("invalid"))
        || contains_seq(&l, &str_chars("expired")))
}

/// An Anthropic error that says an uploaded file or document is gone.
pub fn anthropic_should_retry_missing_file(error: &str) -> (r: bool)
    ensures
        r == names_missing(error@, seq!["file"@, "document"@]),
{
    let things = vec!["file", "document"];
    assert(things@.map_values(|t: &str| t@) =~= seq!["file"@, "document"@]);
    missing(error, &things)
}

/// A Gemini error that says an uploaded file or its URI is gone.
pub fn gemini_should_retry_missing_file(error: &str) -> (r: bool)
    ensures
        r == names_missing(error@, seq!["file"@, "uri"@]),
{
    let things = vec!["file", "uri"];
    assert(things@.map_values(|t: &str| t@) =~= seq!["file"@, "uri"@]);
    missing(error, &things)
}

/// An OpenAI error that says an uploaded file is gone.
pub fn openai_should_retry_missing_file(error: &str) -> (r: bool)
    ensures
        r == names_missing(error@, seq!["file"@]),
{
    let things = vec!["file"];
    assert(things@.map_values(|t: &str| t@) =~= seq!["file"@]);
    missing(error, &things)
}

} // verus!
