//! Files of chat messages before a request: which inline PDFs go up to a
//! provider's Files API, the messages once their handles are known, what
//! an upload sends, and the parts an attachment becomes.

use vstd::prelude::*;
use base64::Engine;
use crate::attachments::ChatAttachmentKind;
use crate::chat_content::{ChatMessage, ChatRole, ContentPart, ImageUrl};
use crate::file_upload::{is_pdf_mime, FileRef};
use crate::text::{chars_to_string, extend_chars, str_chars, str_eq};

verus! {

/// Where inline files are uploaded.
#[derive(Debug, Clone, Copy, PartialEq, Eq, Structural)]
pub enum UploadTarget {
    OpenAi,
    Gemini,
}

pub struct FileView {
    pub attachment_id: Option<Seq<char>>,
    pub file_id: Option<Seq<char>>,
    pub file_uri: Option<Seq<char>>,
    pub file_data: Option<Seq<char>>,
    pub filename: Option<Seq<char>>,
    pub mime_type: Option<Seq<char>>,
}

pub open spec fn ov(o: Option<String>) -> Option<Seq<char>> {
    match o {
        Some(x) => Some(x@),
        None => None,
    }
}

pub open spec fn file_view(f: FileRef) -> FileView {
    FileView {
        attachment_id: ov(f.attachment_id),
        file_id: ov(f.file_id),
        file_uri: ov(f.file_uri),
        file_data: ov(f.file_data),
        filename: ov(f.filename),
        mime_type: ov(f.mime_type),
    }
}

/// A part as plain values.
pub enum PartView {
    Text(Seq<char>),
    Image(Seq<char>),
    File(FileView),
    ToolResult(Seq<char>, Seq<char>),
}

pub open spec fn part_view(p: ContentPart) -> PartView {
    match p {
        ContentPart::Text { text } => PartView::Text(text@),
        ContentPart::ImageRef { image_url } => PartView::Image(image_url.url@),
        ContentPart::FileRef { file } => PartView::File(file_view(file)),
        ContentPart::ToolResult { tool_call_id, content } => PartView::ToolResult(tool_call_id@, content@),
    }
}

/// An inline PDF that has no handle yet at the target is uploaded.
pub open spec fn needs_upload(p: ContentPart, t: UploadTarget) -> bool {
    match p {
        ContentPart::FileRef { file } => match t {
            UploadTarget::OpenAi => file.file_id is None && file.file_data is Some && is_pdf_mime(file.mime_type),
            UploadTarget::Gemini => file.file_uri is None && file.file_data is Some && is_pdf_mime(file.mime_type),
        },
        _ => false,
    }
}

/// The file once uploaded: its handle in place of its data, its name, type
/// and attachment kept.
pub open spec fn uploaded_view(f: FileRef, handle: Seq<char>, t: UploadTarget) -> PartView {
    PartView::File(
        FileView {
            attachment_id: ov(f.attachment_id),
            file_id: if t == UploadTarget::OpenAi {
                Some(handle)
            } else {
                None
            },
            file_uri: if t == UploadTarget::Gemini {
                Some(handle)
            } else {
                None
            },
            file_data: None,
            filename: ov(f.filename),
            mime_type: ov(f.mime_type),
        },
    )
}

pub open spec fn count_parts(parts: Seq<ContentPart>, t: UploadTarget) -> nat
    decreases parts.len(),
{
    if parts.len() == 0 {
        0
    } else {
        count_parts(parts.drop_last(), t) + if needs_upload(parts.last(), t) {
            1nat
        } else {
            0nat
        }
    }
}

pub open spec fn count_messages(msgs: Seq<ChatMessage>, t: UploadTarget) -> nat
    decreases msgs.len(),
{
    if msgs.len() == 0 {
        0
    } else {
        count_messages(msgs.drop_last(), t) + count_parts(msgs.last().content@, t)
    }
}

/// The place among all uploads of a conversation of the part `j` of
/// message `i`, counting in order.
pub open spec fn upload_index(msgs: Seq<ChatMessage>, i: int, j: int, t: UploadTarget) -> int {
    (count_messages(msgs.take(i), t) + count_parts(msgs[i].content@.take(j), t)) as int
}

/// The files a conversation uploads, in order.
pub open spec fn part_files(parts: Seq<ContentPart>, t: UploadTarget) -> Seq<FileView>
    decreases parts.len(),
{
    if parts.len() == 0 {
        Seq::empty()
    } else {
        part_files(parts.drop_last(), t) + if needs_upload(parts.last(), t) {
            match parts.last() {
                ContentPart::FileRef { file } => seq![file_view(file)],
                _ => Seq::empty(),
            }
        } else {
            Seq::empty()
        }
    }
}

pub open spec fn upload_files(msgs: Seq<ChatMessage>, t: UploadTarget) -> Seq<FileView>
    decreases msgs.len(),
{
    if msgs.len() == 0 {
        Seq::empty()
    } else {
        upload_files(msgs.drop_last(), t) + part_files(msgs.last().content@, t)
    }
}

fn copy_opt(o: &Option<String>) -> (r: Option<String>)
    ensures
        ov(r) == ov(*o),
{
    match o {
        Some(x) => Some(x.clone()),
        None => None,
    }
}

fn copy_file(f: &FileRef) -> (r: FileRef)
    ensures
        file_view(r) == file_view(*f),
{
    FileRef {
        attachment_id: copy_opt(&f.attachment_id),
        file_id: copy_opt(&f.file_id),
        file_uri: copy_opt(&f.file_uri),
        file_data: copy_opt(&f.file_data),
        filename: copy_opt(&f.filename),
        mime_type: copy_opt(&f.mime_type),
    }
}

fn copy_part(p: &ContentPart) -> (r: ContentPart)
    ensures
        part_view(r) == part_view(*p),
{
    match p {
        ContentPart::Text { text } => ContentPart::Text { text: text.clone() },
        ContentPart::ImageRef { image_url } => ContentPart::ImageRef { image_url: ImageUrl { url: image_url.url.clone() } },
        ContentPart::FileRef { file } => ContentPart::FileRef { file: copy_file(file) },
        ContentPart::ToolResult { tool_call_id, content } => ContentPart::ToolResult {
            tool_call_id: tool_call_id.clone(),
            content: content.clone(),
        },
    }
}

fn upload_needed(p: &ContentPart, t: UploadTarget) -> (r: bool)
    ensures
        r == needs_upload(*p, t),
{
    match p {
        ContentPart::FileRef { file } => match t {
            UploadTarget::OpenAi => crate::file_upload::should_upload_as_openai_file(file),
            UploadTarget::Gemini => crate::file_upload::should_upload_as_gemini_file(file),
        },
        _ => false,
    }
}

/// The files a conversation uploads to the target, in order.
pub fn files_to_upload(messages: &[ChatMessage], target: UploadTarget) -> (r: Vec<FileRef>)
    ensures
        r@.map_values(|f: FileRef| file_view(f)) == upload_files(messages@, target),
{
    let mut out: Vec<FileRef> = Vec::new();
    let mut i: usize = 0;
    while i < messages.len()
        invariant
            i <= messages.len(),
            out@.map_values(|f: FileRef| file_view(f)) == upload_files(messages@.take(i as int), target),
        decreases messages.len() - i,
    {
        assert(messages@.take((i + 1) as int).drop_last() =~= messages@.take(i as int));
        let parts = &messages[i].content;
        let ghost start = out@.map_values(|f: FileRef| file_view(f));
        let mut j: usize = 0;
        while j < parts.len()
            invariant
                j <= parts.len(),
                out@.map_values(|f: FileRef| file_view(f)) == start + part_files(parts@.take(j as int), target),
            decreases parts.len() - j,
        {
            let ghost before = out@;
            assert(parts@.take((j + 1) as int).drop_last() =~= parts@.take(j as int));
            if upload_needed(&parts[j], target) {
                match &parts[j] {
                    ContentPart::FileRef { file } => {
                        let f = copy_file(file);
                        out.push(f);
                        assert(out@.map_values(|f: FileRef| file_view(f)) =~= before.map_values(
                            |f: FileRef| file_view(f),
                        ).push(file_view(f)));
                    },
                    _ => {},
                }
            }
            j += 1;
        }
        assert(parts@.take(parts.len() as int) =~= parts@);
        i += 1;
    }
    assert(messages@.take(messages.len() as int) =~= messages@);
    out
}

/// A file whose cached upload is dropped before a retry: one with a handle
/// at the target (a file id, as OpenAI and Anthropic give, or a Gemini file
/// URI) or with inline data.
pub open spec fn needs_invalidation(p: ContentPart, t: UploadTarget) -> bool {
    match p {
        ContentPart::FileRef { file } => match t {
            UploadTarget::OpenAi => file.file_id is Some || file.file_data is Some,
            UploadTarget::Gemini => file.file_uri is Some || file.file_data is Some,
        },
        _ => false,
    }
}

pub open spec fn invalidated_part_files(parts: Seq<ContentPart>, t: UploadTarget) -> Seq<FileView>
    decreases parts.len(),
{
    if parts.len() == 0 {
        Seq::empty()
    } else {
        invalidated_part_files(parts.drop_last(), t) + if needs_invalidation(parts.last(), t) {
            match parts.last() {
                ContentPart::FileRef { file } => seq![file_view(file)],
                _ => Seq::empty(),
            }
        } else {
            Seq::empty()
        }
    }
}

/// The files whose cached uploads a retry drops, in order.
pub open spec fn invalidated_files(msgs: Seq<ChatMessage>, t: UploadTarget) -> Seq<FileView>
    decreases msgs.len(),
{
    if msgs.len() == 0 {
        Seq::empty()
    } else {
        invalidated_files(msgs.drop_last(), t) + invalidated_part_files(msgs.last().content@, t)
    }
}

fn invalidation_needed(p: &ContentPart, t: UploadTarget) -> (r: bool)
    ensures
        r == needs_invalidation(*p, t),
{
    match p {
        ContentPart::FileRef { file } => match t {
            UploadTarget::OpenAi => file.file_id.is_some() || file.file_data.is_some(),
            UploadTarget::Gemini => file.file_uri.is_some() || file.file_data.is_some(),
        },
        _ => false,
    }
}

/// The files of a conversation whose cached uploads are dropped when a
/// provider reports a missing file, in order: those with a handle at the
/// target or with inline data.
pub fn files_to_invalidate(messages: &[ChatMessage], target: UploadTarget) -> (r: Vec<FileRef>)
    ensures
        r@.map_values(|f: FileRef| file_view(f)) == invalidated_files(messages@, target),
{
    let mut out: Vec<FileRef> = Vec::new();
    let mut i: usize = 0;
    while i < messages.len()
        invariant
            i <= messages.len(),
            out@.map_values(|f: FileRef| file_view(f)) == invalidated_files(messages@.take(i as int), target),
        decreases messages.len() - i,
    {
        assert(messages@.take((i + 1) as int).drop_last() =~= messages@.take(i as int));
        let parts = &messages[i].content;
        let ghost start = out@.map_values(|f: FileRef| file_view(f));
        let mut j: usize = 0;
        while j < parts.len()
            invariant
                j <= parts.len(),
                out@.map_values(|f: FileRef| file_view(f)) == start + invalidated_part_files(parts@.take(j as int), target),
            decreases parts.len() - j,
        {
            let ghost before = out@;
            assert(parts@.take((j + 1) as int).drop_last() =~= parts@.take(j as int));
            if invalidation_needed(&parts[j], target) {
                match &parts[j] {
                    ContentPart::FileRef { file } => {
                        let f = copy_file(file);
                        out.push(f);
                        assert(out@.map_values(|f: FileRef| file_view(f)) =~= before.map_values(
                            |f: FileRef| file_view(f),
                        ).push(file_view(f)));
                    },
                    _ => {},
                }
            }
            j += 1;
        }
        assert(parts@.take(parts.len() as int) =~= parts@);
        i += 1;
    }
    assert(messages@.take(messages.len() as int) =~= messages@);
    out
}

fn uploaded_part(file: &FileRef, handle: String, target: UploadTarget) -> (r: ContentPart)
    ensures
        part_view(r) == uploaded_view(*file, handle@, target),
{
    let ghost h = handle@;
    let (file_id, file_uri) = match target {
        UploadTarget::OpenAi => (Some(handle), None),
        UploadTarget::Gemini => (None, Some(handle)),
    };
    ContentPart::FileRef {
        file: FileRef {
            attachment_id: copy_opt(&file.attachment_id),
            file_id,
            file_uri,
            file_data: None,
            filename: copy_opt(&file.filename),
            mime_type: copy_opt(&file.mime_type),
        },
    }
}

/// The messages with each uploaded file replaced by its handle.
/// `handles` holds the handle of each file of `files_to_upload`, in order;
/// every other part is kept as it is.
pub fn apply_uploads(messages: &[ChatMessage], target: UploadTarget, handles: Vec<String>) -> (r: Vec<
    ChatMessage,
>)
    requires
        handles.len() == count_messages(messages@, target),
    ensures
        r.len() == messages.len(),
        forall|i: int|
            #![trigger r@[i]]
            0 <= i < messages.len() ==> {
                &&& r@[i].role == messages@[i].role
                &&& ov(r@[i].name) == ov(messages@[i].name)
                &&& r@[i].content.len() == messages@[i].content.len()
                &&& forall|j: int|
                    #![trigger r@[i].content@[j]]
                    0 <= j < messages@[i].content.len() ==> part_view(r@[i].content@[j]) == if needs_upload(
                        messages@[i].content@[j],
                        target,
                    ) {
                        match messages@[i].content@[j] {
                            ContentPart::FileRef { file } => uploaded_view(
                                file,
                                handles@[upload_index(messages@, i, j, target)]@,
                                target,
                            ),
                            _ => part_view(messages@[i].content@[j]),
                        }
                    } else {
                        part_view(messages@[i].content@[j])
                    }
            },
{
    let ghost hs = handles@;
    let mut out: Vec<ChatMessage> = Vec::new();
    let mut k: usize = 0;
    let mut i: usize = 0;
    while i < messages.len()
        invariant
            i <= messages.len(),
            hs == handles@,
            hs.len() == count_messages(messages@, target),
            k == count_messages(messages@.take(i as int), target),
            out.len() == i,
            forall|a: int|
                #![trigger out@[a]]
                0 <= a < i ==> {
                    &&& out@[a].role == messages@[a].role
                    &&& ov(out@[a].name) == ov(messages@[a].name)
                    &&& out@[a].content.len() == messages@[a].content.len()
                    &&& forall|b: int|
                        #![trigger out@[a].content@[b]]
                        0 <= b < messages@[a].content.len() ==> part_view(out@[a].content@[b]) == if needs_upload(
                            messages@[a].content@[b],
                            target,
                        ) {
                            match messages@[a].content@[b] {
                                ContentPart::FileRef { file } => uploaded_view(
                                    file,
                                    hs[upload_index(messages@, a, b, target)]@,
                                    target,
                                ),
                                _ => part_view(messages@[a].content@[b]),
                            }
                        } else {
                            part_view(messages@[a].content@[b])
                        }
                },
        decreases messages.len() - i,
    {
        proof {
            lemma_count_messages_prefix(messages@, i as int, target);
        }
        let m = &messages[i];
        let parts = &m.content;
        let mut content: Vec<ContentPart> = Vec::new();
        let mut j: usize = 0;
        while j < parts.len()
            invariant
                i < messages.len(),
                *m == messages@[i as int],
                *parts == m.content,
                j <= parts.len(),
                hs == handles@,
                hs.len() == count_messages(messages@, target),
                count_messages(messages@.take(i as int), target) + count_parts(parts@, target) <= hs.len(),
                k == count_messages(messages@.take(i as int), target) + count_parts(parts@.take(j as int), target),
                content.len() == j,
                forall|b: int|
                    #![trigger content@[b]]
                    0 <= b < j ==> part_view(content@[b]) == if needs_upload(parts@[b], target) {
                        match parts@[b] {
                            ContentPart::FileRef { file } => uploaded_view(
                                file,
                                hs[upload_index(messages@, i as int, b, target)]@,
                                target,
                            ),
                            _ => part_view(parts@[b]),
                        }
                    } else {
                        part_view(parts@[b])
                    },
            decreases parts.len() - j,
        {
            assert(parts@.take((j + 1) as int).drop_last() =~= parts@.take(j as int));
            proof {
                lemma_count_parts_prefix(parts@, (j + 1) as int, target);
            }
            if upload_needed(&parts[j], target) {
                match &parts[j] {
                    ContentPart::FileRef { file } => {
                        assert(k < hs.len());
                        let p = uploaded_part(file, handles[k].clone(), target);
                        content.push(p);
                    },
                    _ => {
                        content.push(copy_part(&parts[j]));
                    },
                }
                k += 1;
            } else {
                content.push(copy_part(&parts[j]));
            }
            j += 1;
        }
        assert(parts@.take(parts.len() as int) =~= parts@);
        assert(messages@.take((i + 1) as int).drop_last() =~= messages@.take(i as int));
        let name = match &m.name {
            Some(x) => Some(x.clone()),
            None => None,
        };
        out.push(ChatMessage { role: m.role, content, name });
        i += 1;
    }
    out
}

proof fn lemma_count_parts_prefix(parts: Seq<ContentPart>, n: int, t: UploadTarget)
    requires
        0 <= n <= parts.len(),
    ensures
        count_parts(parts.take(n), t) <= count_parts(parts, t),
    decreases parts.len() - n,
{
    if n < parts.len() {
        assert(parts.take(n + 1).drop_last() =~= parts.take(n));
        lemma_count_parts_prefix(parts, n + 1, t);
    } else {
        assert(parts.take(n) =~= parts);
    }
}

proof fn lemma_count_messages_prefix(msgs: Seq<ChatMessage>, n: int, t: UploadTarget)
    requires
        0 <= n < msgs.len(),
    ensures
        count_messages(msgs.take(n), t) + count_parts(msgs[n].content@, t) <= count_messages(msgs, t),
    decreases msgs.len() - n,
{
    assert(msgs.take(n + 1).drop_last() =~= msgs.take(n));
    if n + 1 < msgs.len() {
        lemma_count_messages_prefix(msgs, n + 1, t);
    } else {
        assert(msgs.take(n + 1) =~= msgs);
    }
}

// ---------------------------------------------------------------------------
// Base64
// ---------------------------------------------------------------------------

/// What the standard base64 engine decodes a text to, or the message of
/// its decode error.
pub uninterp spec fn base64_decoded(text: Seq<char>) -> Result<Seq<u8>, Seq<char>>;

/// The text decodes to exactly these bytes.
pub open spec fn decodes_to(text: Seq<char>, bytes: Seq<u8>) -> bool {
    base64_decoded(text) == Ok::<Seq<u8>, Seq<char>>(bytes)
}

/// What the standard base64 engine encodes bytes as.
pub uninterp spec fn base64_encoded(bytes: Seq<u8>) -> Seq<char>;

/// `base64::engine::general_purpose::STANDARD.decode(text)`, its error as
/// text. What it decodes to is named `base64_decoded`, not stated.
#[verifier::external_body]
fn base64_decode(text: &str) -> (r: Result<Vec<u8>, String>)
    ensures
        match r {
            Ok(b) => base64_decoded(text@) is Ok && base64_decoded(text@)->Ok_0 == b@,
            Err(e) => base64_decoded(text@) is Err && base64_decoded(text@)->Err_0 == e@,
        },
{
    base64::engine::general_purpose::STANDARD.decode(text).map_err(|e| e.to_string())
}

/// `base64::engine::general_purpose::STANDARD.encode(bytes)`. Its text is
/// named `base64_encoded`; decoding it gives the bytes back, as the
/// crate's round-trip tests check. The engine panics where the encoded
/// length overflows `usize`, so the input is bounded.
#[verifier::external_body]
fn base64_encode(bytes: &[u8]) -> (r: String)
    requires
        bytes@.len() <= usize::MAX / 2,
    ensures
        r@ == base64_encoded(bytes@),
        base64_decoded(r@) is Ok && base64_decoded(r@)->Ok_0 == bytes@,
{
    base64::engine::general_purpose::STANDARD.encode(bytes)
}

// ---------------------------------------------------------------------------
// What an upload sends
// ---------------------------------------------------------------------------

/// What an upload sends: the decoded bytes, a file name and a media type.
#[derive(Debug)]
pub struct UploadPlan {
    pub bytes: Vec<u8>,
    pub filename: String,
    pub mime_type: String,
}

pub open spec fn target_name(t: UploadTarget) -> Seq<char> {
    match t {
        UploadTarget::OpenAi => "OpenAI"@,
        UploadTarget::Gemini => "Gemini"@,
    }
}

/// An upload needs the file's inline data, decoded from base64; the name
/// defaults to `attachment.pdf`, the type to `application/pdf`.
pub open spec fn upload_plan_of(file: FileRef, t: UploadTarget) -> Result<(Seq<u8>, Seq<char>, Seq<char>), Seq<char>> {
    match file.file_data {
        None => Err("Missing file_data for "@ + target_name(t) + " file upload"@),
        Some(d) => match base64_decoded(d@) {
            Err(e) => Err("Failed to decode file_data for "@ + target_name(t) + " upload: "@ + e),
            Ok(b) => Ok(
                (
                    b,
                    match file.filename {
                        Some(n) => n@,
                        None => "attachment.pdf"@,
                    },
                    match file.mime_type {
                        Some(m) => m@,
                        None => "application/pdf"@,
                    },
                ),
            ),
        },
    }
}

/// What uploading a file to the target sends.
pub fn upload_plan(file: &FileRef, target: UploadTarget) -> (r: Result<UploadPlan, String>)
    ensures
        match upload_plan_of(*file, target) {
            Ok(v) => r matches Ok(p) && (p.bytes@, p.filename@, p.mime_type@) == v,
            Err(e) => r matches Err(m) && m@ == e,
        },
{
    let name = match target {
        UploadTarget::OpenAi => "OpenAI",
        UploadTarget::Gemini => "Gemini",
    };
    let data = match &file.file_data {
        Some(d) => d,
        None => {
            let mut v = str_chars("Missing file_data for ");
            extend_chars(&mut v, &str_chars(name));
            extend_chars(&mut v, &str_chars(" file upload"));
            return Err(chars_to_string(&v));
        },
    };
    let filename = match &file.filename {
        Some(n) => n.clone(),
        None => "attachment.pdf".to_owned(),
    };
    let mime_type = match &file.mime_type {
        Some(m) => m.clone(),
        None => "application/pdf".to_owned(),
    };
    match base64_decode(data.as_str()) {
        Ok(bytes) => Ok(UploadPlan { bytes, filename, mime_type }),
        Err(e) => {
            let mut v = str_chars("Failed to decode file_data for ");
            extend_chars(&mut v, &str_chars(name));
            extend_chars(&mut v, &str_chars(" upload: "));
            extend_chars(&mut v, &str_chars(e.as_str()));
            Err(chars_to_string(&v))
        },
    }
}

// ---------------------------------------------------------------------------
// Attachments as message parts
// ---------------------------------------------------------------------------

/// How a message's role reads: `system` and `assistant` as such, anything
/// else as the user.
pub open spec fn role_of(role: Seq<char>) -> ChatRole {
    if role == "system"@ {
        ChatRole::System
    } else if role == "assistant"@ {
        ChatRole::Assistant
    } else {
        ChatRole::User
    }
}

/// The role of an assembled message.
pub fn chat_role_for(role: &str) -> (r: ChatRole)
    ensures
        r == role_of(role@),
{
    if str_eq(role, "system") {
        ChatRole::System
    } else if str_eq(role, "assistant") {
        ChatRole::Assistant
    } else {
        ChatRole::User
    }
}

/// An image or a PDF attachment is refused where the connection takes no
/// such input; other kinds pass.
pub open spec fn attachment_refusal(kind: Seq<char>, filename: Seq<char>, image_ok: bool, pdf_ok: bool) -> Option<
    Seq<char>,
> {
    if kind == "image"@ && !image_ok {
        Some("Current API config does not support image input; attachment "@ + filename + " cannot be sent"@)
    } else if kind == "pdf"@ && !pdf_ok {
        Some("Current API config does not support PDF input; attachment "@ + filename + " cannot be sent"@)
    } else {
        None
    }
}

/// Whether an attachment may be sent on a connection.
pub fn check_attachment_supported(kind: &str, filename: &str, image_supported: bool, pdf_supported: bool) -> (r:
    Result<(), String>)
    ensures
        match attachment_refusal(kind@, filename@, image_supported, pdf_supported) {
            Some(e) => r matches Err(m) && m@ == e,
            None => r is Ok,
        },
{
    if str_eq(kind, "image") && !image_supported {
        let mut v = str_chars("Current API config does not support image input; attachment ");
        extend_chars(&mut v, &str_chars(filename));
        extend_chars(&mut v, &str_chars(" cannot be sent"));
        return Err(chars_to_string(&v));
    }
    if str_eq(kind, "pdf") && !pdf_supported {
        let mut v = str_chars("Current API config does not support PDF input; attachment ");
        extend_chars(&mut v, &str_chars(filename));
        extend_chars(&mut v, &str_chars(" cannot be sent"));
        return Err(chars_to_string(&v));
    }
    Ok(())
}

/// The part a stored attachment becomes: an image as a base64 data URL of
/// its type; a PDF as an inline file, base64, that keeps its attachment
/// id, name and type.
pub open spec fn attachment_part_view(
    kind: ChatAttachmentKind,
    mime_type: Seq<char>,
    filename: Seq<char>,
    attachment_id: Seq<char>,
    blob: Seq<u8>,
) -> PartView {
    match kind {
        ChatAttachmentKind::Image => PartView::Image("data:"@ + mime_type + ";base64,"@ + base64_encoded(blob)),
        ChatAttachmentKind::Pdf => PartView::File(
            FileView {
                attachment_id: Some(attachment_id),
                file_id: None,
                file_uri: None,
                file_data: Some(base64_encoded(blob)),
                filename: Some(filename),
                mime_type: Some(mime_type),
            },
        ),
    }
}

/// The part a stored attachment becomes. A PDF's inline data decodes back
/// to the attachment's bytes.
pub fn attachment_content_part(
    kind: ChatAttachmentKind,
    mime_type: &str,
    filename: &str,
    attachment_id: &str,
    blob: &[u8],
) -> (r: ContentPart)
    requires
        blob@.len() <= usize::MAX / 2,
    ensures
        part_view(r) == attachment_part_view(kind, mime_type@, filename@, attachment_id@, blob@),
        match r {
            ContentPart::FileRef { file } => file.file_data matches Some(d) && decodes_to(d@, blob@),
            _ => true,
        },
{
    let encoded = base64_encode(blob);
    match kind {
        ChatAttachmentKind::Image => {
            let mut v = str_chars("data:");
            extend_chars(&mut v, &str_chars(mime_type));
            extend_chars(&mut v, &str_chars(";base64,"));
            extend_chars(&mut v, &str_chars(encoded.as_str()));
            ContentPart::ImageRef { image_url: ImageUrl { url: chars_to_string(&v) } }
        },
        ChatAttachmentKind::Pdf => ContentPart::FileRef {
            file: FileRef {
                attachment_id: Some(attachment_id.to_owned()),
                file_id: None,
                file_uri: None,
                file_data: Some(encoded),
                filename: Some(filename.to_owned()),
                mime_type: Some(mime_type.to_owned()),
            },
        },
    }
}

/// A PDF attachment sent inline goes up byte for byte: where a file's
/// inline data is the base64 of an attachment's bytes (as
/// `attachment_content_part` makes it), uploading the file to either
/// target sends exactly those bytes.
pub proof fn law_uploads_send_the_attachment_bytes(file: FileRef, blob: Seq<u8>, t: UploadTarget)
    requires
        file.file_data matches Some(d) && decodes_to(d@, blob),
    ensures
        upload_plan_of(file, t) matches Ok(p) && p.0 == blob,
{
}

} // verus!
