//! Chat attachments: size limit, kind detection by MIME type, file name and
//! magic bytes, and the blob file extension.

use vstd::prelude::*;
use crate::text::{ascii_lower, chars_to_string, concat_string, decimal, ends_with, extend_chars, has_prefix, has_suffix, lower_ascii, starts_with, str_chars, usize_decimal};

verus! {

/// Largest attachment accepted, in bytes (10 MiB).
pub const MAX_CHAT_ATTACHMENT_BYTES: usize = 10 * 1024 * 1024;

/// What an attachment holds.
#[derive(Debug, Clone, Copy, PartialEq, Eq, Structural)]
pub enum ChatAttachmentKind {
    Image,
    Pdf,
}

pub open spec fn bytes_start_with(data: Seq<u8>, prefix: Seq<u8>) -> bool {
    prefix.len() <= data.len() && data.subrange(0, prefix.len() as int) == prefix
}

pub open spec fn pdf_magic() -> Seq<u8> {
    seq![0x25u8, 0x50, 0x44, 0x46, 0x2d]
}

pub open spec fn png_magic() -> Seq<u8> {
    seq![0x89u8, 0x50, 0x4e, 0x47, 0x0d, 0x0a, 0x1a, 0x0a]
}

pub open spec fn jpeg_magic() -> Seq<u8> {
    seq![0xffu8, 0xd8, 0xff]
}

pub open spec fn gif87_magic() -> Seq<u8> {
    seq![0x47u8, 0x49, 0x46, 0x38, 0x37, 0x61]
}

pub open spec fn gif89_magic() -> Seq<u8> {
    seq![0x47u8, 0x49, 0x46, 0x38, 0x39, 0x61]
}

pub open spec fn riff_magic() -> Seq<u8> {
    seq![0x52u8, 0x49, 0x46, 0x46]
}

pub open spec fn webp_tag() -> Seq<u8> {
    seq![0x57u8, 0x45, 0x42, 0x50]
}

/// A RIFF container whose bytes 8..12 read `WEBP`.
pub open spec fn is_webp(data: Seq<u8>) -> bool {
    bytes_start_with(data, riff_magic()) && 12 <= data.len() && data.subrange(8, 12) == webp_tag()
}

/// The kind that the leading bytes of a file show, if any.
pub open spec fn magic_kind(data: Seq<u8>) -> Option<ChatAttachmentKind> {
    if bytes_start_with(data, pdf_magic()) {
        Some(ChatAttachmentKind::Pdf)
    } else if bytes_start_with(data, png_magic()) || bytes_start_with(data, jpeg_magic())
        || bytes_start_with(data, gif87_magic()) || bytes_start_with(data, gif89_magic())
        || is_webp(data) {
        Some(ChatAttachmentKind::Image)
    } else {
        None
    }
}

fn starts_with_bytes(data: &[u8], prefix: &[u8]) -> (r: bool)
    ensures
        r == bytes_start_with(data@, prefix@),
{
    if prefix.len() > data.len() {
        return false;
    }
    let mut i: usize = 0;
    while i < prefix.len()
        invariant
            i <= prefix.len() <= data.len(),
            forall|k: int| 0 <= k < i ==> data@[k] == prefix@[k],
        decreases prefix.len() - i,
    {
        if data[i] != prefix[i] {
            assert(data@.subrange(0, prefix.len() as int)[i as int] != prefix@[i as int]);
            return false;
        }
        i += 1;
    }
    assert(data@.subrange(0, prefix.len() as int) =~= prefix@);
    true
}

/// The kind shown by the file header: PDF, or one of PNG, JPEG, GIF, WebP.
pub fn classify_attachment_magic(data: &[u8]) -> (r: Option<ChatAttachmentKind>)
    ensures
        r == magic_kind(data@),
{
    let pdf: Vec<u8> = vec![0x25u8, 0x50, 0x44, 0x46, 0x2d];
    let png: Vec<u8> = vec![0x89u8, 0x50, 0x4e, 0x47, 0x0d, 0x0a, 0x1a, 0x0a];
    let jpeg: Vec<u8> = vec![0xffu8, 0xd8, 0xff];
    let gif87: Vec<u8> = vec![0x47u8, 0x49, 0x46, 0x38, 0x37, 0x61];
    let gif89: Vec<u8> = vec![0x47u8, 0x49, 0x46, 0x38, 0x39, 0x61];
    let riff: Vec<u8> = vec![0x52u8, 0x49, 0x46, 0x46];
    assert(pdf@ == pdf_magic());
    assert(png@ == png_magic());
    assert(jpeg@ == jpeg_magic());
    assert(gif87@ == gif87_magic());
    assert(gif89@ == gif89_magic());
    assert(riff@ == riff_magic());
    if starts_with_bytes(data, &pdf) {
        return Some(ChatAttachmentKind::Pdf);
    }
    let webp = starts_with_bytes(data, &riff) && data.len() >= 12 && data[8] == 0x57
        && data[9] == 0x45 && data[10] == 0x42 && data[11] == 0x50;
    assert(webp == is_webp(data@)) by {
        if 12 <= data.len() {
            if data@.subrange(8, 12) == webp_tag() {
                assert(data@.subrange(8, 12)[0] == data@[8]);
                assert(data@.subrange(8, 12)[1] == data@[9]);
                assert(data@.subrange(8, 12)[2] == data@[10]);
                assert(data@.subrange(8, 12)[3] == data@[11]);
            }
            if data[8] == 0x57 && data[9] == 0x45 && data[10] == 0x42 && data[11] == 0x50 {
                assert(data@.subrange(8, 12) =~= webp_tag());
            }
        }
    }
    if starts_with_bytes(data, &png) || starts_with_bytes(data, &jpeg) || starts_with_bytes(
        data,
        &gif87,
    ) || starts_with_bytes(data, &gif89) || webp {
        return Some(ChatAttachmentKind::Image);
    }
    None
}

pub open spec fn image_mime_prefix() -> Seq<char> {
    "image/"@
}

pub open spec fn pdf_mime() -> Seq<char> {
    "application/pdf"@
}

pub open spec fn pdf_suffix() -> Seq<char> {
    ".pdf"@
}

/// Outcome of checking a declared type (`label`, e.g. MIME or file name)
/// against the kind the header shows.
pub open spec fn check_declared(
    expected: ChatAttachmentKind,
    magic: Option<ChatAttachmentKind>,
    mismatch: Seq<char>,
    unknown: Seq<char>,
) -> Result<ChatAttachmentKind, Seq<char>> {
    match magic {
        Some(k) => if k == expected {
            Ok(expected)
        } else {
            Err(mismatch)
        },
        None => Err(unknown),
    }
}

/// The kind of an attachment, from its MIME type (or, failing that, a
/// `.pdf` file name), which its header bytes must confirm.
pub open spec fn attachment_kind(mime: Seq<char>, filename: Seq<char>, data: Seq<u8>) -> Result<
    ChatAttachmentKind,
    Seq<char>,
> {
    let m = ascii_lower(mime);
    let magic = magic_kind(data);
    if starts_with(m, image_mime_prefix()) {
        check_declared(
            ChatAttachmentKind::Image,
            magic,
            "Attachment MIME says image but file header is PDF"@,
            "Unsupported or unrecognized image attachment header"@,
        )
    } else if m == pdf_mime() {
        check_declared(
            ChatAttachmentKind::Pdf,
            magic,
            "Attachment MIME says PDF but file header is image"@,
            "Unsupported or unrecognized PDF attachment header"@,
        )
    } else if ends_with(ascii_lower(filename), pdf_suffix()) {
        check_declared(
            ChatAttachmentKind::Pdf,
            magic,
            "Attachment filename says PDF but file header is image"@,
            "Unsupported or unrecognized PDF attachment header"@,
        )
    } else {
        Err("Unsupported attachment type: "@ + mime)
    }
}

fn declared_result(
    expected: ChatAttachmentKind,
    magic: Option<ChatAttachmentKind>,
    mismatch: &str,
    unknown: &str,
) -> (r: Result<ChatAttachmentKind, String>)
    ensures
        match (r, check_declared(expected, magic, mismatch@, unknown@)) {
            (Ok(a), Ok(b)) => a == b,
            (Err(a), Err(b)) => a@ == b,
            _ => false,
        },
{
    match magic {
        Some(k) => {
            if k == expected {
                Ok(expected)
            } else {
                Err(chars_to_string(&str_chars(mismatch)))
            }
        },
        None => Err(chars_to_string(&str_chars(unknown))),
    }
}

/// Decides whether an attachment is an image or a PDF; the declared type
/// must agree with the file header.
pub fn classify_attachment_kind(mime_type: &str, filename: &str, data: &[u8]) -> (r: Result<
    ChatAttachmentKind,
    String,
>)
    ensures
        match (r, attachment_kind(mime_type@, filename@, data@)) {
            (Ok(a), Ok(b)) => a == b,
            (Err(a), Err(b)) => a@ == b,
            _ => false,
        },
{
    let mime = lower_ascii(&str_chars(mime_type));
    let magic_kind = classify_attachment_magic(data);
    let image_prefix = str_chars("image/");
    if has_prefix(&mime, &image_prefix) {
        return declared_result(
            ChatAttachmentKind::Image,
            magic_kind,
            "Attachment MIME says image but file header is PDF",
            "Unsupported or unrecognized image attachment header",
        );
    }
    let pdf = str_chars("application/pdf");
    if crate::text::seq_eq(&mime, &pdf) {
        return declared_result(
            ChatAttachmentKind::Pdf,
            magic_kind,
            "Attachment MIME says PDF but file header is image",
            "Unsupported or unrecognized PDF attachment header",
        );
    }
    let lower_name = lower_ascii(&str_chars(filename));
    let suffix = str_chars(".pdf");
    if has_suffix(&lower_name, &suffix) {
        return declared_result(
            ChatAttachmentKind::Pdf,
            magic_kind,
            "Attachment filename says PDF but file header is image",
            "Unsupported or unrecognized PDF attachment header",
        );
    }
    let prefix = str_chars("Unsupported attachment type: ");
    Err(concat_string(&prefix, &str_chars(mime_type)))
}

/// A file name that no platform splits further: no `/`, `\\` or `:`, and
/// not `..`. Such a string is its own file name everywhere.
pub open spec fn plain_file_name(s: Seq<char>) -> bool {
    &&& !s.contains('/')
    &&& !s.contains('\\')
    &&& !s.contains(':')
    &&& s != seq!['.', '.']
}

/// Index of the last `.` in `s`.
pub open spec fn last_dot(s: Seq<char>) -> Option<int>
    decreases s.len(),
{
    if s.len() == 0 {
        None
    } else if s.last() == '.' {
        Some(s.len() - 1)
    } else {
        last_dot(s.drop_last())
    }
}

/// The extension of a file name, as `Path::extension` documents it: none
/// where the name has no `.`, or its only `.` leads it; else what follows
/// the last `.`.
pub open spec fn file_name_extension(s: Seq<char>) -> Option<Seq<char>> {
    match last_dot(s) {
        None => None,
        Some(i) => if i == 0 {
            None
        } else {
            Some(s.skip(i + 1))
        },
    }
}

/// What holds of an extension `Path::extension` reports for `filename` on
/// any platform: `.` and the extension stand in the path, and the
/// extension holds no `.` and no `/`.
pub open spec fn reported_extension(filename: Seq<char>, e: Seq<char>) -> bool {
    &&& crate::text::contains(filename, "."@ + e)
    &&& !e.contains('.')
    &&& !e.contains('/')
}

/// `std::path::Path::new(filename).extension()`, as text. On every platform
/// a path without a `.` has no extension, and a reported extension follows
/// a `.` in the path and holds no `.` or `/`. For a plain file name (see
/// `plain_file_name`) the result is the documented one. For other paths,
/// which extension is reported depends on how the platform splits paths
/// into components, and is left unsaid.
#[verifier::external_body]
fn path_extension(filename: &str) -> (r: Option<String>)
    ensures
        plain_file_name(filename@) ==> opt_text(r) == file_name_extension(filename@),
        r matches Some(e) ==> reported_extension(filename@, e@),
        !filename@.contains('.') ==> r is None,
{
    std::path::Path::new(filename).extension().and_then(|ext| ext.to_str()).map(|ext| ext.to_string())
}

pub open spec fn opt_text(o: Option<String>) -> Option<Seq<char>> {
    match o {
        Some(s) => Some(s@),
        None => None,
    }
}

/// The blob file extension for a file name extension (if any) and kind.
pub open spec fn blob_extension(ext: Option<Seq<char>>, kind: ChatAttachmentKind) -> Seq<char> {
    match ext {
        Some(e) => "."@ + e,
        None => match kind {
            ChatAttachmentKind::Image => ".bin"@,
            ChatAttachmentKind::Pdf => ".pdf"@,
        },
    }
}

/// The blob file extension: the file name's own extension, or one that
/// suits the kind.
pub fn extension_for(ext: Option<&str>, kind: ChatAttachmentKind) -> (r: String)
    ensures
        r@ == blob_extension(
            match ext {
                Some(e) => Some(e@),
                None => None,
            },
            kind,
        ),
{
    match ext {
        Some(e) => concat_string(&str_chars("."), &str_chars(e)),
        None => match kind {
            ChatAttachmentKind::Image => chars_to_string(&str_chars(".bin")),
            ChatAttachmentKind::Pdf => chars_to_string(&str_chars(".pdf")),
        },
    }
}

/// What the blob extension of an attachment may be: a `.` and an
/// extension reported for its file name, or the kind's default.
pub open spec fn blob_extension_of(filename: Seq<char>, kind: ChatAttachmentKind, r: Seq<char>) -> bool {
    ||| r == blob_extension(None, kind)
    ||| exists|e: Seq<char>| #[trigger] reported_extension(filename, e) && r == "."@ + e
}

/// The extension under which an attachment's blob is stored: what
/// `path_extension` reports for the file name, after a dot, or the kind's
/// default. For a plain file name it is the documented extension.
pub fn filename_extension(filename: &str, kind: ChatAttachmentKind) -> (r: String)
    ensures
        plain_file_name(filename@) ==> r@ == blob_extension(file_name_extension(filename@), kind),
        blob_extension_of(filename@, kind, r@),
        !filename@.contains('.') ==> r@ == blob_extension(None, kind),
{
    let ext = path_extension(filename);
    match &ext {
        Some(e) => {
            let r = extension_for(Some(e.as_str()), kind);
            assert(r@ == blob_extension(Some(e@), kind));
            assert(reported_extension(filename@, e@));
            assert(blob_extension_of(filename@, kind, r@));
            r
        },
        None => {
            let r = extension_for(None, kind);
            assert(r@ == blob_extension(None, kind));
            r
        },
    }
}

/// The refusal of an attachment of `len` bytes, over the size limit.
pub open spec fn size_limit_message(len: nat) -> Seq<char> {
    "Attachment exceeds size limit: "@ + decimal(len) + " bytes > "@ + decimal(
        MAX_CHAT_ATTACHMENT_BYTES as nat,
    ) + " bytes"@
}

/// What saving an attachment decides before anything is written: a payload
/// over the size limit is refused; else its kind must be recognised.
pub open spec fn attachment_save(filename: Seq<char>, mime: Seq<char>, data: Seq<u8>) -> Result<
    ChatAttachmentKind,
    Seq<char>,
> {
    if data.len() > MAX_CHAT_ATTACHMENT_BYTES {
        Err(size_limit_message(data.len()))
    } else {
        attachment_kind(mime, filename, data)
    }
}

/// Checks an attachment about to be saved and names its blob file: the
/// kind and the blob file name (`"blob"` and the blob extension), or the
/// reason it is refused.
pub fn prepare_chat_attachment(filename: &str, mime_type: &str, data: &[u8]) -> (r: Result<
    (ChatAttachmentKind, String),
    String,
>)
    ensures
        match (r, attachment_save(filename@, mime_type@, data@)) {
            (Ok((k, b)), Ok(k2)) => k == k2 && exists|x: Seq<char>|
                #![trigger blob_extension_of(filename@, k, x)]
                b@ == "blob"@ + x && blob_extension_of(filename@, k, x) && (plain_file_name(filename@)
                    ==> x == blob_extension(file_name_extension(filename@), k)) && (!filename@.contains(
                    '.',
                ) ==> x == blob_extension(None, k)),
            (Err(m), Err(e)) => m@ == e,
            _ => false,
        },
{
    if data.len() > MAX_CHAT_ATTACHMENT_BYTES {
        let mut v = str_chars("Attachment exceeds size limit: ");
        extend_chars(&mut v, &usize_decimal(data.len()));
        extend_chars(&mut v, &str_chars(" bytes > "));
        extend_chars(&mut v, &usize_decimal(MAX_CHAT_ATTACHMENT_BYTES));
        extend_chars(&mut v, &str_chars(" bytes"));
        return Err(chars_to_string(&v));
    }
    match classify_attachment_kind(mime_type, filename, data) {
        Ok(kind) => {
            let ext = filename_extension(filename, kind);
            let blob = concat_string(&str_chars("blob"), &str_chars(ext.as_str()));
            assert(blob_extension_of(filename@, kind, ext@));
            Ok((kind, blob))
        },
        Err(e) => Err(e),
    }
}

} // verus!
