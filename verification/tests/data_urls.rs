use smart_tavern::data_urls::{
    anthropic_should_retry_missing_file, claude_image_base64_from_data_url,
    claude_image_mime_type_from_data_url, gemini_should_retry_missing_file,
    image_base64_from_data_url, image_mime_type_from_data_url, openai_should_retry_missing_file,
};

#[test]
fn anthropic_retry_missing_file_detects_expected_errors() {
    assert!(anthropic_should_retry_missing_file("API error: document expired"));
    assert!(anthropic_should_retry_missing_file("API error: file not found"));
    assert!(!anthropic_should_retry_missing_file("API error: overloaded"));
}

#[test]
fn gemini_retry_missing_file_detects_expected_errors() {
    assert!(gemini_should_retry_missing_file("API error: file uri not found"));
    assert!(gemini_should_retry_missing_file("API error: invalid file handle"));
    assert!(!gemini_should_retry_missing_file("API error: candidate blocked"));
}

#[test]
fn openai_chat_retry_missing_file_detects_expected_errors() {
    assert!(openai_should_retry_missing_file("API error: file not found"));
    assert!(openai_should_retry_missing_file("API error: invalid file reference"));
    assert!(!openai_should_retry_missing_file("API error: context length exceeded"));
}

#[test]
fn openai_responses_retry_missing_file_detects_expected_errors() {
    assert!(openai_should_retry_missing_file("API error: file expired"));
    assert!(openai_should_retry_missing_file("API error: invalid file handle"));
    assert!(!openai_should_retry_missing_file("API error: rate limit exceeded"));
}

#[test]
fn retry_check_ignores_case_and_needs_both_parts() {
    assert!(anthropic_should_retry_missing_file("DOCUMENT NOT FOUND"));
    assert!(!anthropic_should_retry_missing_file("document is fine"));
    assert!(!openai_should_retry_missing_file("uri not found"));
    assert!(gemini_should_retry_missing_file("URI Expired"));
}

#[test]
fn data_url_media_type_and_payload() {
    let url = "data:image/png;base64,abc";
    assert_eq!(image_mime_type_from_data_url(url), "image/png");
    assert_eq!(image_base64_from_data_url(url), "abc");
    assert_eq!(image_mime_type_from_data_url("https://x/y.png"), "image/jpeg");
    assert_eq!(image_mime_type_from_data_url("data:;base64,abc"), "image/jpeg");
    assert_eq!(image_base64_from_data_url("no separator"), "");
    assert_eq!(image_base64_from_data_url("data:a;base64,xy;base64,z"), "xy");
}

#[test]
fn claude_data_url_reading() {
    let url = "data:image/webp;base64,QUJD";
    assert_eq!(claude_image_mime_type_from_data_url(url), "image/webp");
    assert_eq!(claude_image_base64_from_data_url(url), "QUJD");
    assert_eq!(claude_image_mime_type_from_data_url("data:image/gif"), "image/png");
    assert_eq!(claude_image_mime_type_from_data_url("plain"), "image/png");
    assert_eq!(claude_image_base64_from_data_url("plain"), "plain");
}
