//! Provider file uploads: which file parts are uploaded, and the key under
//! which an upload is cached.

use vstd::prelude::*;
use std::collections::hash_map::DefaultHasher;
use std::hash::Hasher;
use vstd::std_specs::hash::DefaultHasherAdditionalSpecFns;
use crate::text::{chars_to_string, str_eq};

verus! {

/// A file carried by a chat message.
#[derive(Debug, Clone)]
pub struct FileRef {
    pub attachment_id: Option<String>,
    pub file_id: Option<String>,
    pub file_uri: Option<String>,
    pub file_data: Option<String>,
    pub filename: Option<String>,
    pub mime_type: Option<String>,
}

pub open spec fn is_pdf_mime(mime: Option<String>) -> bool {
    match mime {
        Some(m) => m@ == "application/pdf"@,
        None => false,
    }
}

fn mime_is_pdf(mime: &Option<String>) -> (r: bool)
    ensures
        r == is_pdf_mime(*mime),
{
    match mime {
        Some(m) => str_eq(m.as_str(), "application/pdf"),
        None => false,
    }
}

/// An inline PDF with no OpenAI file id yet is uploaded to the Files API.
pub fn should_upload_as_openai_file(file: &FileRef) -> (r: bool)
    ensures
        r == (file.file_id is None && file.file_data is Some && is_pdf_mime(file.mime_type)),
{
    file.file_id.is_none() && file.file_data.is_some() && mime_is_pdf(&file.mime_type)
}

/// An inline PDF with no Gemini file URI yet is uploaded to the Files API.
pub fn should_upload_as_gemini_file(file: &FileRef) -> (r: bool)
    ensures
        r == (file.file_uri is None && file.file_data is Some && is_pdf_mime(file.mime_type)),
{
    file.file_uri.is_none() && file.file_data.is_some() && mime_is_pdf(&file.mime_type)
}

// ---------------------------------------------------------------------------
// Cache keys
// ---------------------------------------------------------------------------

pub open spec fn hex_char(d: nat) -> char {
    if d < 10 {
        ((d + 48) as u32) as char
    } else {
        ((d + 87) as u32) as char
    }
}

/// The `n` low hexadecimal digits of `v`, most significant first, as
/// `format!("{:0n$x}", v)` writes them for `v < 16^n`.
pub open spec fn hex_fixed(v: nat, n: nat) -> Seq<char>
    decreases n,
{
    if n == 0 {
        Seq::empty()
    } else {
        hex_fixed(v / 16, (n - 1) as nat).push(hex_char(v % 16))
    }
}

pub open spec fn is_lower_hex(c: char) -> bool {
    ('0' <= c && c <= '9') || ('a' <= c && c <= 'f')
}

pub proof fn lemma_hex_fixed(v: nat, n: nat)
    ensures
        hex_fixed(v, n).len() == n,
        forall|i: int| 0 <= i < n ==> is_lower_hex(#[trigger] hex_fixed(v, n)[i]),
    decreases n,
{
    if n > 0 {
        lemma_hex_fixed(v / 16, (n - 1) as nat);
    }
}

fn hex_digit(d: u64) -> (c: char)
    requires
        d < 16,
    ensures
        c == hex_char(d as nat),
{
    if d < 10 {
        ((d as u8) + 48) as char
    } else {
        ((d as u8) + 87) as char
    }
}

fn hex_fixed_exec(v: u64, n: usize) -> (r: Vec<char>)
    ensures
        r@ == hex_fixed(v as nat, n as nat),
    decreases n,
{
    if n == 0 {
        Vec::new()
    } else {
        let mut r = hex_fixed_exec(v / 16, n - 1);
        r.push(hex_digit(v % 16));
        r
    }
}

/// `format!("{:016x}", v)`.
pub fn hex16(v: u64) -> (r: String)
    ensures
        r@ == hex_fixed(v as nat, 16),
{
    let digits = hex_fixed_exec(v, 16);
    chars_to_string(&digits)
}

/// What `<str as Hash>::hash` feeds a hasher for a string: writes that
/// depend on the string alone.
pub uninterp spec fn str_hash_writes(s: Seq<char>) -> Seq<Seq<u8>>;

/// The writes of an optional string, given the bytes its variant's
/// discriminant is written as: those bytes in one write, then, for `Some`,
/// the string's own writes.
pub open spec fn opt_string_writes(v: Option<Seq<char>>, discriminant: Seq<u8>) -> Seq<Seq<u8>> {
    seq![discriminant] + match v {
        Some(s) => str_hash_writes(s),
        None => Seq::empty(),
    }
}

pub open spec fn opt_text(v: Option<String>) -> Option<Seq<char>> {
    match v {
        Some(s) => Some(s@),
        None => None,
    }
}

/// Feeds a string slice to a hasher (`<str as Hash>::hash`). The hasher, as
/// vstd models it (the writes made so far), gets the writes of the string,
/// which are named `str_hash_writes` and not stated: the byte layout is
/// std's and its documentation does not give it.
#[verifier::external_body]
fn hash_str(s: &str, state: &mut DefaultHasher)
    ensures
        final(state)@ == old(state)@ + str_hash_writes(s@),
{
    std::hash::Hash::hash(s, state)
}

/// Feeds an optional string to a hasher (`<Option<String> as Hash>::hash`).
/// The hasher gets one write of the discriminant's bytes, then the string's
/// writes. Those bytes are left open: the discriminant is written as a
/// machine word in the machine's byte order.
#[verifier::external_body]
fn hash_opt_string(v: &Option<String>, state: &mut DefaultHasher)
    ensures
        exists|d: Seq<u8>| final(state)@ == old(state)@ + opt_string_writes(opt_text(*v), d),
{
    std::hash::Hash::hash(v, state)
}

/// The writes that hashing an upload makes: endpoint, account key, file
/// name, MIME type and data, in that order, each optional field after the
/// bytes of its discriminant (`d1`, `d2`, `d3`).
pub open spec fn upload_writes(
    base_url: Seq<char>,
    api_key: Seq<char>,
    file: FileRef,
    d1: Seq<u8>,
    d2: Seq<u8>,
    d3: Seq<u8>,
) -> Seq<Seq<u8>> {
    str_hash_writes(base_url) + str_hash_writes(api_key) + opt_string_writes(opt_text(file.filename), d1)
        + opt_string_writes(opt_text(file.mime_type), d2) + opt_string_writes(opt_text(file.file_data), d3)
}

/// The 64-bit hash of an upload: endpoint, account key, file name, MIME
/// type and data, fed in that order to a fresh `DefaultHasher`.
fn upload_hash(base_url: &str, api_key: &str, file: &FileRef) -> (r: u64)
    ensures
        exists|d1: Seq<u8>, d2: Seq<u8>, d3: Seq<u8>|
            r == DefaultHasher::spec_finish(#[trigger] upload_writes(base_url@, api_key@, *file, d1, d2, d3)),
{
    let mut hasher = DefaultHasher::new();
    hash_str(base_url, &mut hasher);
    hash_str(api_key, &mut hasher);
    let ghost h0 = hasher@;
    hash_opt_string(&file.filename, &mut hasher);
    let ghost d1 = choose|d: Seq<u8>| hasher@ == h0 + opt_string_writes(opt_text(file.filename), d);
    let ghost h1 = hasher@;
    hash_opt_string(&file.mime_type, &mut hasher);
    let ghost d2 = choose|d: Seq<u8>| hasher@ == h1 + opt_string_writes(opt_text(file.mime_type), d);
    let ghost h2 = hasher@;
    hash_opt_string(&file.file_data, &mut hasher);
    let ghost d3 = choose|d: Seq<u8>| hasher@ == h2 + opt_string_writes(opt_text(file.file_data), d);
    assert(hasher@ =~= upload_writes(base_url@, api_key@, *file, d1, d2, d3));
    hasher.finish()
}

/// Cache key of an OpenAI upload: 16 lowercase hex digits of the upload
/// hash (so the raw file data never appears in it).
pub fn openai_file_cache_key(base_url: &str, api_key: &str, file: &FileRef) -> (r: String)
    ensures
        exists|d1: Seq<u8>, d2: Seq<u8>, d3: Seq<u8>|
            r@ == hex_fixed(
                DefaultHasher::spec_finish(#[trigger] upload_writes(base_url@, api_key@, *file, d1, d2, d3)) as nat,
                16,
            ),
        r@.len() == 16,
        forall|i: int| 0 <= i < r@.len() ==> is_lower_hex(#[trigger] r@[i]),
{
    let h = upload_hash(base_url, api_key, file);
    proof {
        lemma_hex_fixed(h as nat, 16);
    }
    hex16(h)
}

/// Cache key of a Gemini upload: 16 lowercase hex digits of the upload
/// hash (so the raw file data never appears in it).
pub fn gemini_file_cache_key(base_url: &str, api_key: &str, file: &FileRef) -> (r: String)
    ensures
        exists|d1: Seq<u8>, d2: Seq<u8>, d3: Seq<u8>|
            r@ == hex_fixed(
                DefaultHasher::spec_finish(#[trigger] upload_writes(base_url@, api_key@, *file, d1, d2, d3)) as nat,
                16,
            ),
        r@.len() == 16,
        forall|i: int| 0 <= i < r@.len() ==> is_lower_hex(#[trigger] r@[i]),
{
    let h = upload_hash(base_url, api_key, file);
    proof {
        lemma_hex_fixed(h as nat, 16);
    }
    hex16(h)
}

} // verus!
