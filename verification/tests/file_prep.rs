use smart_tavern::attachments::ChatAttachmentKind;
use smart_tavern::chat_content::{ChatMessage, ChatRole, ContentPart};
use smart_tavern::file_prep::{
    apply_uploads, attachment_content_part, chat_role_for, check_attachment_supported,
    files_to_invalidate, files_to_upload, upload_plan, UploadTarget,
};
use smart_tavern::file_upload::FileRef;

fn pdf(data: Option<&str>) -> FileRef {
    FileRef {
        attachment_id: Some("att-1".to_string()),
        file_id: None,
        file_uri: None,
        file_data: data.map(|d| d.to_string()),
        filename: Some("doc.pdf".to_string()),
        mime_type: Some("application/pdf".to_string()),
    }
}

fn text(s: &str) -> ContentPart {
    ContentPart::Text { text: s.to_string() }
}

fn conversation() -> Vec<ChatMessage> {
    vec![
        ChatMessage { role: ChatRole::User, content: vec![text("read"), ContentPart::FileRef { file: pdf(Some("JVBERg==")) }], name: None },
        ChatMessage { role: ChatRole::Assistant, content: vec![text("ok")], name: Some("bot".to_string()) },
        ChatMessage { role: ChatRole::User, content: vec![ContentPart::FileRef { file: pdf(Some("QUJD")) }], name: None },
    ]
}

#[test]
fn inline_pdfs_are_listed_for_upload_in_order() {
    let files = files_to_upload(&conversation(), UploadTarget::OpenAi);
    assert_eq!(files.len(), 2);
    assert_eq!(files[0].file_data.as_deref(), Some("JVBERg=="));
    assert_eq!(files[1].file_data.as_deref(), Some("QUJD"));
    let mut msgs = conversation();
    if let ContentPart::FileRef { file } = &mut msgs[0].content[1] {
        file.file_id = Some("file_existing".to_string());
    }
    assert_eq!(files_to_upload(&msgs, UploadTarget::OpenAi).len(), 1);
    assert_eq!(files_to_upload(&msgs, UploadTarget::Gemini).len(), 2);
}

#[test]
fn uploads_replace_data_with_handles() {
    let msgs = conversation();
    let out = apply_uploads(&msgs, UploadTarget::Gemini, vec!["files/a".to_string(), "files/b".to_string()]);
    assert_eq!(out.len(), 3);
    match &out[0].content[1] {
        ContentPart::FileRef { file } => {
            assert_eq!(file.file_uri.as_deref(), Some("files/a"));
            assert_eq!(file.file_id, None);
            assert_eq!(file.file_data, None);
            assert_eq!(file.filename.as_deref(), Some("doc.pdf"));
            assert_eq!(file.attachment_id.as_deref(), Some("att-1"));
        }
        other => panic!("unexpected {other:?}"),
    }
    match &out[2].content[0] {
        ContentPart::FileRef { file } => assert_eq!(file.file_uri.as_deref(), Some("files/b")),
        other => panic!("unexpected {other:?}"),
    }
    assert!(matches!(&out[1].content[0], ContentPart::Text { text } if text == "ok"));
    assert_eq!(out[1].name.as_deref(), Some("bot"));
    assert_eq!(out[1].role, ChatRole::Assistant);
}

#[test]
fn openai_uploads_get_file_ids() {
    let out = apply_uploads(&conversation(), UploadTarget::OpenAi, vec!["file_1".to_string(), "file_2".to_string()]);
    match &out[2].content[0] {
        ContentPart::FileRef { file } => {
            assert_eq!(file.file_id.as_deref(), Some("file_2"));
            assert_eq!(file.file_uri, None);
        }
        other => panic!("unexpected {other:?}"),
    }
}

#[test]
fn upload_plans_decode_the_inline_data() {
    let plan = upload_plan(&pdf(Some("JVBERg==")), UploadTarget::OpenAi).expect("plan");
    assert_eq!(plan.bytes, b"%PDF".to_vec());
    assert_eq!(plan.filename, "doc.pdf");
    assert_eq!(plan.mime_type, "application/pdf");
    let mut bare = pdf(Some("QUJD"));
    bare.filename = None;
    bare.mime_type = None;
    let plan = upload_plan(&bare, UploadTarget::Gemini).expect("plan");
    assert_eq!(plan.bytes, b"ABC".to_vec());
    assert_eq!(plan.filename, "attachment.pdf");
    assert_eq!(plan.mime_type, "application/pdf");
}

#[test]
fn upload_plans_need_valid_data() {
    assert_eq!(
        upload_plan(&pdf(None), UploadTarget::OpenAi).unwrap_err(),
        "Missing file_data for OpenAI file upload"
    );
    let err = upload_plan(&pdf(Some("!!!")), UploadTarget::Gemini).unwrap_err();
    assert!(err.starts_with("Failed to decode file_data for Gemini upload: "));
    assert!(err.len() > "Failed to decode file_data for Gemini upload: ".len());
}

#[test]
fn attachments_become_parts() {
    match attachment_content_part(ChatAttachmentKind::Image, "image/png", "a.png", "att-9", &[0x25, 0x50]) {
        ContentPart::ImageRef { image_url } => assert_eq!(image_url.url, "data:image/png;base64,JVA="),
        other => panic!("unexpected {other:?}"),
    }
    let part = attachment_content_part(ChatAttachmentKind::Pdf, "application/pdf", "d.pdf", "att-9", b"%PDF");
    match &part {
        ContentPart::FileRef { file } => {
            assert_eq!(file.file_data.as_deref(), Some("JVBERg=="));
            assert_eq!(file.attachment_id.as_deref(), Some("att-9"));
            assert_eq!(file.filename.as_deref(), Some("d.pdf"));
            let plan = upload_plan(file, UploadTarget::OpenAi).expect("plan");
            assert_eq!(plan.bytes, b"%PDF".to_vec());
        }
        other => panic!("unexpected {other:?}"),
    }
}

#[test]
fn roles_and_capabilities() {
    assert_eq!(chat_role_for("system"), ChatRole::System);
    assert_eq!(chat_role_for("assistant"), ChatRole::Assistant);
    assert_eq!(chat_role_for("tool"), ChatRole::User);
    assert_eq!(
        check_attachment_supported("image", "a.png", false, true),
        Err("Current API config does not support image input; attachment a.png cannot be sent".to_string())
    );
    assert_eq!(
        check_attachment_supported("pdf", "d.pdf", true, false),
        Err("Current API config does not support PDF input; attachment d.pdf cannot be sent".to_string())
    );
    assert_eq!(check_attachment_supported("image", "a.png", true, false), Ok(()));
    assert_eq!(check_attachment_supported("audio", "x.mp3", false, false), Ok(()));
}

#[test]
fn retries_drop_cached_uploads_of_files_with_handles_or_data() {
    let mut msgs = conversation();
    msgs.push(ChatMessage {
        role: ChatRole::User,
        content: vec![ContentPart::FileRef {
            file: FileRef {
                attachment_id: None,
                file_id: Some("file_1".to_string()),
                file_uri: None,
                file_data: None,
                filename: None,
                mime_type: None,
            },
        }],
        name: None,
    });
    msgs.push(ChatMessage { role: ChatRole::User, content: vec![ContentPart::FileRef { file: pdf(None) }], name: None });
    let openai = files_to_invalidate(&msgs, UploadTarget::OpenAi);
    assert_eq!(openai.len(), 3);
    assert_eq!(openai[2].file_id.as_deref(), Some("file_1"));
    let gemini = files_to_invalidate(&msgs, UploadTarget::Gemini);
    assert_eq!(gemini.len(), 2);
}
