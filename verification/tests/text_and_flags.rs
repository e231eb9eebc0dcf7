use base64::Engine;
use chromium_mcp::flags::{is_space_char, parse_chrome_flags};
use chromium_mcp::replies::{
    clicked_message, closed_message, decimal_text, navigate_message, pdf_reply, screenshot_file_name,
    screenshot_mime_type, screenshot_reply, screenshot_reply_from, screenshot_saved_message,
    typed_message,
};

#[test]
fn flags_split_at_whitespace() {
    let flags = parse_chrome_flags("  --disable-gpu   --window-size=800,600\t--lang=de\n");
    assert_eq!(flags, vec!["--disable-gpu", "--window-size=800,600", "--lang=de"]);
}

#[test]
fn flags_of_empty_or_blank_text_are_none() {
    assert!(parse_chrome_flags("").is_empty());
    assert!(parse_chrome_flags(" \t\r\n ").is_empty());
}

#[test]
fn flags_single_word() {
    assert_eq!(parse_chrome_flags("--headless=new"), vec!["--headless=new"]);
}

#[test]
fn flags_unicode_whitespace_separates() {
    let flags = parse_chrome_flags("--a\u{3000}--b\u{a0}--c\u{2003}ü");
    assert_eq!(flags, vec!["--a", "--b", "--c", "ü"]);
}

#[test]
fn flags_agree_with_split_whitespace() {
    let samples = [
        "a b  c",
        "\u{85}x\u{2028}y\u{202f}z\u{205f}",
        "no-spaces",
        "  lead and trail  ",
        "\u{1680}\u{2000}\u{200a}q",
    ];
    for s in samples {
        let expected: Vec<String> = s.split_whitespace().map(String::from).collect();
        assert_eq!(parse_chrome_flags(s), expected);
    }
}

#[test]
fn space_characters_match_std() {
    for c in ['\u{9}', '\u{d}', ' ', '\u{85}', '\u{a0}', '\u{1680}', '\u{2000}', '\u{200a}', '\u{2028}', '\u{2029}', '\u{202f}', '\u{205f}', '\u{3000}', 'a', '\u{8}', '\u{200b}', '\u{e}', '-'] {
        assert_eq!(is_space_char(c), c.is_whitespace(), "{:?}", c);
    }
}

#[test]
fn decimal_text_of_numbers() {
    assert_eq!(decimal_text(0), "0");
    assert_eq!(decimal_text(7), "7");
    assert_eq!(decimal_text(10), "10");
    assert_eq!(decimal_text(1725029869123), "1725029869123");
    assert_eq!(decimal_text(u128::MAX), u128::MAX.to_string());
}

#[test]
fn screenshot_file_name_carries_millis() {
    assert_eq!(screenshot_file_name(1725029869123), "screenshot_1725029869123.png");
    assert_eq!(screenshot_file_name(0), "screenshot_0.png");
}

#[test]
fn tool_messages() {
    assert_eq!(
        navigate_message("https://example.com", "Example Domain"),
        "Navigated to https://example.com. Page title: Example Domain"
    );
    assert_eq!(navigate_message("about:blank", ""), "Navigated to about:blank. Page title: ");
    assert_eq!(clicked_message("#submit"), "Clicked `#submit`");
    assert_eq!(typed_message("input[name=q]"), "Typed into `input[name=q]`");
    assert_eq!(closed_message(), "Browser closed");
    assert_eq!(
        screenshot_saved_message("/tmp/screenshot_5.png"),
        "Screenshot saved to /tmp/screenshot_5.png"
    );
    assert_eq!(screenshot_mime_type(), "image/png");
}

#[test]
fn pdf_is_answered_in_base64() {
    assert_eq!(pdf_reply(&b"hello".to_vec()), "aGVsbG8=");
    assert_eq!(pdf_reply(&b"%PDF-1.4".to_vec()), "JVBERi0xLjQ=");
    assert_eq!(pdf_reply(&Vec::new()), "");
    assert_eq!(pdf_reply(&vec![0xfb, 0xff]), "+/8=");
}

#[test]
fn screenshot_reply_parts() {
    let png = vec![0x89, b'P', b'N', b'G'];
    let reply = screenshot_reply(&png, "/tmp/screenshot_42.png");
    assert_eq!(reply.text, "Screenshot saved to /tmp/screenshot_42.png");
    assert_eq!(reply.image_data, "iVBORw==");
    assert_eq!(reply.mime_type, "image/png");
    let again = screenshot_reply_from("iVBORw==".to_string(), "/tmp/screenshot_42.png");
    assert_eq!(again, reply);
}

#[test]
fn base64_answers_decode_to_the_bytes() {
    let samples: Vec<Vec<u8>> = vec![
        vec![],
        vec![0],
        vec![0xff, 0xfe],
        b"%PDF".to_vec(),
        (0u8..=255).collect(),
    ];
    for bytes in samples {
        let text = pdf_reply(&bytes);
        assert_eq!(base64::engine::general_purpose::STANDARD.decode(&text).unwrap(), bytes);
        let shot = screenshot_reply(&bytes, "/tmp/x.png");
        assert_eq!(base64::engine::general_purpose::STANDARD.decode(&shot.image_data).unwrap(), bytes);
        assert_eq!(text.len(), 4 * ((bytes.len() + 2) / 3));
    }
}

#[test]
fn pdf_magic_in_base64() {
    assert_eq!(pdf_reply(&b"%PDF".to_vec()), "JVBERg==");
}
