use smart_tavern::attachments::{
    classify_attachment_kind, classify_attachment_magic, extension_for, filename_extension,
    prepare_chat_attachment, ChatAttachmentKind, MAX_CHAT_ATTACHMENT_BYTES,
};

#[test]
fn chat_attachment_limit_is_ten_megabytes() {
    assert_eq!(MAX_CHAT_ATTACHMENT_BYTES, 10 * 1024 * 1024);
}

#[test]
fn attachment_kind_requires_matching_magic_bytes() {
    let png = [0x89, b'P', b'N', b'G', 0x0d, 0x0a, 0x1a, 0x0a, 0x00];
    assert_eq!(
        classify_attachment_kind("image/png", "image.png", &png).unwrap(),
        ChatAttachmentKind::Image
    );

    assert!(classify_attachment_kind("image/png", "image.png", b"%PDF-1.7").is_err());
    assert!(classify_attachment_kind("application/pdf", "doc.pdf", b"not-a-pdf").is_err());
}

#[test]
fn magic_bytes_cover_each_supported_format() {
    assert_eq!(classify_attachment_magic(b"%PDF-"), Some(ChatAttachmentKind::Pdf));
    assert_eq!(classify_attachment_magic(&[0xff, 0xd8, 0xff, 0x00]), Some(ChatAttachmentKind::Image));
    assert_eq!(classify_attachment_magic(b"GIF87a..."), Some(ChatAttachmentKind::Image));
    assert_eq!(classify_attachment_magic(b"GIF89a"), Some(ChatAttachmentKind::Image));
    assert_eq!(classify_attachment_magic(b"RIFF\0\0\0\0WEBPVP8 "), Some(ChatAttachmentKind::Image));
    assert_eq!(classify_attachment_magic(b"RIFF\0\0\0\0WAVE"), None);
    assert_eq!(classify_attachment_magic(b"%PD"), None);
}

#[test]
fn each_classification_error_has_its_message() {
    assert_eq!(
        classify_attachment_kind("IMAGE/PNG", "x", b"%PDF-1").unwrap_err(),
        "Attachment MIME says image but file header is PDF"
    );
    assert_eq!(
        classify_attachment_kind("image/png", "x", b"abc").unwrap_err(),
        "Unsupported or unrecognized image attachment header"
    );
    assert_eq!(
        classify_attachment_kind("application/pdf", "x", b"GIF89a").unwrap_err(),
        "Attachment MIME says PDF but file header is image"
    );
    assert_eq!(
        classify_attachment_kind("application/octet-stream", "REPORT.PDF", b"GIF89a").unwrap_err(),
        "Attachment filename says PDF but file header is image"
    );
    assert_eq!(
        classify_attachment_kind("application/octet-stream", "report.pdf", b"%PDF-1").unwrap(),
        ChatAttachmentKind::Pdf
    );
    assert_eq!(
        classify_attachment_kind("text/plain", "a.txt", b"%PDF-1").unwrap_err(),
        "Unsupported attachment type: text/plain"
    );
}

#[test]
fn blob_extension_keeps_file_extension_or_uses_kind_default() {
    assert_eq!(filename_extension("photo.jpeg", ChatAttachmentKind::Image), ".jpeg");
    assert_eq!(filename_extension("photo", ChatAttachmentKind::Image), ".bin");
    assert_eq!(filename_extension("scan", ChatAttachmentKind::Pdf), ".pdf");
    assert_eq!(extension_for(Some("png"), ChatAttachmentKind::Pdf), ".png");
    assert_eq!(extension_for(None, ChatAttachmentKind::Pdf), ".pdf");
}

#[test]
fn saving_refuses_oversized_attachments() {
    let data = vec![0u8; MAX_CHAT_ATTACHMENT_BYTES + 1];
    assert_eq!(
        prepare_chat_attachment("big.png", "image/png", &data),
        Err("Attachment exceeds size limit: 10485761 bytes > 10485760 bytes".to_string())
    );
}

#[test]
fn saving_names_the_blob_after_the_extension() {
    let png = [0x89u8, b'P', b'N', b'G', 0x0D, 0x0A, 0x1A, 0x0A, 0, 0];
    assert_eq!(
        prepare_chat_attachment("photo.PNG", "image/png", &png),
        Ok((ChatAttachmentKind::Image, "blob.PNG".to_string()))
    );
    let pdf = b"%PDF-1.7 rest";
    assert_eq!(
        prepare_chat_attachment("report", "application/pdf", pdf),
        Ok((ChatAttachmentKind::Pdf, "blob.pdf".to_string()))
    );
    assert_eq!(
        prepare_chat_attachment("notes.txt", "text/plain", pdf),
        Err("Unsupported attachment type: text/plain".to_string())
    );
}

#[test]
fn file_name_extension_comes_from_the_last_dot() {
    assert_eq!(filename_extension("archive.tar.gz", ChatAttachmentKind::Pdf), ".gz");
    assert_eq!(filename_extension(".hidden", ChatAttachmentKind::Image), ".bin");
    assert_eq!(filename_extension("dir/photo.jpeg", ChatAttachmentKind::Image), ".jpeg");
}

#[test]
fn extensions_of_plain_names_follow_the_last_dot() {
    assert_eq!(filename_extension("a.", ChatAttachmentKind::Image), ".");
    assert_eq!(filename_extension("...", ChatAttachmentKind::Image), ".");
    assert_eq!(filename_extension(".a.b", ChatAttachmentKind::Image), ".b");
    assert_eq!(filename_extension("noext", ChatAttachmentKind::Pdf), ".pdf");
}
