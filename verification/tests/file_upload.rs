use smart_tavern::file_upload::{
    gemini_file_cache_key, hex16, openai_file_cache_key, should_upload_as_gemini_file,
    should_upload_as_openai_file, FileRef,
};

fn pdf_file_ref() -> FileRef {
    FileRef {
        attachment_id: Some("att-1".to_string()),
        file_id: None,
        file_uri: None,
        file_data: Some("ZmFrZS1wZGY=".to_string()),
        filename: Some("test.pdf".to_string()),
        mime_type: Some("application/pdf".to_string()),
    }
}

#[test]
fn uploads_only_inline_pdf_without_existing_file_id() {
    assert!(should_upload_as_openai_file(&pdf_file_ref()));

    let with_file_id = FileRef {
        file_id: Some("file_123".to_string()),
        ..pdf_file_ref()
    };
    assert!(!should_upload_as_openai_file(&with_file_id));

    let image = FileRef {
        mime_type: Some("image/png".to_string()),
        ..pdf_file_ref()
    };
    assert!(!should_upload_as_openai_file(&image));
}

#[test]
fn openai_files_cache_key_changes_for_different_accounts() {
    let file = pdf_file_ref();
    let key_a = openai_file_cache_key("https://api.openai.com/v1", "sk-account-a", &file);
    let key_b = openai_file_cache_key("https://api.openai.com/v1", "sk-account-b", &file);

    assert_ne!(key_a, key_b);
}

#[test]
fn cache_key_does_not_inline_raw_file_data() {
    let file = pdf_file_ref();
    let key = openai_file_cache_key("https://api.openai.com/v1", "sk-account-a", &file);

    assert!(!key.contains("ZmFrZS1wZGY="));
    assert_eq!(key.len(), 16);
}

#[test]
fn uploads_only_inline_pdf_without_existing_file_uri() {
    assert!(should_upload_as_gemini_file(&pdf_file_ref()));

    let with_file_uri = FileRef {
        file_uri: Some("files/abc".to_string()),
        ..pdf_file_ref()
    };
    assert!(!should_upload_as_gemini_file(&with_file_uri));
}

#[test]
fn gemini_files_cache_key_changes_for_different_accounts() {
    let file = pdf_file_ref();
    let key_a = gemini_file_cache_key(
        "https://generativelanguage.googleapis.com/upload/v1beta",
        "key-a",
        &file,
    );
    let key_b = gemini_file_cache_key(
        "https://generativelanguage.googleapis.com/upload/v1beta",
        "key-b",
        &file,
    );

    assert_ne!(key_a, key_b);
}

#[test]
fn cache_key_is_stable_and_hex_formats_zero_padded() {
    let file = pdf_file_ref();
    let a = gemini_file_cache_key("u", "k", &file);
    let b = gemini_file_cache_key("u", "k", &file);
    assert_eq!(a, b);
    assert_eq!(hex16(0), "0000000000000000");
    assert_eq!(hex16(0xbeef), "000000000000beef");
    assert_eq!(hex16(u64::MAX), "ffffffffffffffff");
    let data_only = FileRef { file_data: None, ..pdf_file_ref() };
    assert!(!should_upload_as_gemini_file(&data_only));
    assert!(!should_upload_as_openai_file(&FileRef { mime_type: None, ..pdf_file_ref() }));
}
