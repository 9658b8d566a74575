use anda_kip::{quote_str, unquote_str};

#[test]
fn test_quote_str_basic() {
    // Test basic string quoting
    assert_eq!(quote_str("hello"), "\"hello\"");
    assert_eq!(quote_str("world"), "\"world\"");
    assert_eq!(quote_str(""), "\"\"");
}

#[test]
fn test_quote_str_with_quotes() {
    // Test strings containing quotes
    assert_eq!(quote_str("say \"hi\""), "\"say \\\"hi\\\"\"");
    assert_eq!(quote_str("\"quoted\""), "\"\\\"quoted\\\"\"");
    assert_eq!(quote_str("It's \"great\"!"), "\"It's \\\"great\\\"!\"");
}

#[test]
fn test_quote_str_with_backslashes() {
    // Test strings containing backslashes
    assert_eq!(quote_str("path\\to\\file"), "\"path\\\\to\\\\file\"");
    assert_eq!(quote_str("\\n\\t"), "\"\\\\n\\\\t\"");
    assert_eq!(quote_str("C:\\\\Users"), "\"C:\\\\\\\\Users\"");
}

#[test]
fn test_quote_str_with_control_characters() {
    // Test strings containing control characters
    assert_eq!(quote_str("line1\nline2"), "\"line1\\nline2\"");
    assert_eq!(quote_str("tab\there"), "\"tab\\there\"");
    assert_eq!(quote_str("carriage\rreturn"), "\"carriage\\rreturn\"");
    // assert_eq!(quote_str("form\ffeed"), "\"form\\ffeed\"");
    // assert_eq!(quote_str("back\bspace"), "\"back\\bspace\"");
}

#[test]
fn test_quote_str_with_unicode() {
    // Test strings containing Unicode characters
    assert_eq!(quote_str("你好"), "\"你好\"");
    assert_eq!(quote_str("🚀 rocket"), "\"🚀 rocket\"");
    assert_eq!(quote_str("café"), "\"café\"");
}

#[test]
fn test_unquote_str_basic() {
    // Test basic string unquoting
    assert_eq!(unquote_str("\"hello\""), Some("hello".to_string()));
    assert_eq!(unquote_str("\"world\""), Some("world".to_string()));
    assert_eq!(unquote_str("\"\""), Some("".to_string()));
}

#[test]
fn test_unquote_str_with_escaped_quotes() {
    // Test unquoting strings with escaped quotes
    assert_eq!(
        unquote_str("\"say \\\"hi\\\"\""),
        Some("say \"hi\"".to_string())
    );
    assert_eq!(
        unquote_str("\"\\\"quoted\\\"\""),
        Some("\"quoted\"".to_string())
    );
    assert_eq!(
        unquote_str("\"It's \\\"great\\\"!\""),
        Some("It's \"great\"!".to_string())
    );
}

#[test]
fn test_unquote_str_with_escaped_backslashes() {
    // Test unquoting strings with escaped backslashes
    assert_eq!(
        unquote_str("\"path\\\\to\\\\file\""),
        Some("path\\to\\file".to_string())
    );
    assert_eq!(unquote_str("\"\\\\n\\\\t\""), Some("\\n\\t".to_string()));
    assert_eq!(
        unquote_str("\"C:\\\\\\\\Users\""),
        Some("C:\\\\Users".to_string())
    );
}

#[test]
fn test_unquote_str_with_control_characters() {
    // Test unquoting strings with control characters
    assert_eq!(
        unquote_str("\"line1\\nline2\""),
        Some("line1\nline2".to_string())
    );
    assert_eq!(unquote_str("\"tab\\there\""), Some("tab\there".to_string()));
    assert_eq!(
        unquote_str("\"carriage\\rreturn\""),
        Some("carriage\rreturn".to_string())
    );
    // assert_eq!(unquote_str("\"form\\ffeed\""), Some("form\ffeed".to_string()));
    // assert_eq!(unquote_str("\"back\\bspace\""), Some("back\bspace".to_string()));
}

#[test]
fn test_unquote_str_with_unicode() {
    // Test unquoting strings with Unicode characters
    assert_eq!(unquote_str("\"你好\""), Some("你好".to_string()));
    assert_eq!(unquote_str("\"🚀 rocket\""), Some("🚀 rocket".to_string()));
    assert_eq!(unquote_str("\"café\""), Some("café".to_string()));
}

#[test]
fn test_unquote_str_invalid_input() {
    // Test unquoting invalid JSON strings
    assert_eq!(unquote_str("hello"), None); // Missing quotes
    assert_eq!(unquote_str("\"hello"), None); // Missing closing quote
    assert_eq!(unquote_str("hello\""), None); // Missing opening quote
    assert_eq!(unquote_str("'hello'"), None); // Single quotes instead of double
    assert_eq!(unquote_str("\"hello\" world"), None); // Extra content after closing quote
    assert_eq!(unquote_str("\"invalid\\escape\""), None); // Invalid escape sequence
}

#[test]
fn test_quote_unquote_roundtrip() {
    // Test that quote_str and unquote_str are inverse operations
    let test_strings = vec![
        "hello",
        "say \"hi\"",
        "path\\to\\file",
        "line1\nline2\ttab",
        "你好世界",
        "🚀🌟💫",
        "",
        "complex: \"nested\" with \\backslashes\\ and \nnewlines",
    ];

    for original in test_strings {
        let quoted = quote_str(original);
        let unquoted = unquote_str(&quoted);
        assert_eq!(
            unquoted,
            Some(original.to_string()),
            "Roundtrip failed for: {}",
            original
        );
    }
}

#[test]
fn test_quote_str_special_cases() {
    // Test edge cases and special characters
    assert_eq!(quote_str("\0"), "\"\\u0000\""); // Null character
    assert_eq!(quote_str("\x08"), "\"\\b\""); // Backspace
    assert_eq!(quote_str("\x0C"), "\"\\f\""); // Form feed
}

#[test]
fn test_unquote_str_special_escapes() {
    // Test unquoting special escape sequences
    assert_eq!(unquote_str("\"\\u0000\""), Some("\0".to_string()));
    assert_eq!(unquote_str("\"\\b\""), Some("\x08".to_string()));
    assert_eq!(unquote_str("\"\\f\""), Some("\x0C".to_string()));
    assert_eq!(unquote_str("\"\\u4f60\\u597d\""), Some("你好".to_string()));
}

#[test]
fn test_quote_str_control_characters_all() {
    // every character below 0x20 other than the named escapes becomes \u00XX
    assert_eq!(quote_str("\x01"), "\"\\u0001\"");
    assert_eq!(quote_str("\x1f"), "\"\\u001f\"");
    assert_eq!(quote_str("a\x0bb"), "\"a\\u000bb\"");
}

#[test]
fn test_roundtrip_control_and_unicode() {
    let mut all = String::new();
    for n in 0u32..0x80 {
        all.push(char::from_u32(n).unwrap());
    }
    all.push_str("\u{7f}\u{80}\u{ffff}\u{10ffff}é漢🚀");
    assert_eq!(unquote_str(&quote_str(&all)), Some(all.clone()));
    assert_eq!(unquote_str(&quote_str("\0\0")), Some("\0\0".to_string()));
}

#[test]
fn test_escape_fidelity_recovers_bytes() {
    assert_eq!(unquote_str(&quote_str("\0")), Some("\0".to_string()));
    assert_eq!(unquote_str(&quote_str("\x08")), Some("\x08".to_string()));
    assert_eq!(unquote_str(&quote_str("\x0C")), Some("\x0C".to_string()));
}

#[test]
fn test_unquote_str_surrogates_and_slash() {
    assert_eq!(unquote_str("\"\\ud83d\\ude80\""), Some("🚀".to_string()));
    assert_eq!(unquote_str("\"\\ud83d\""), None);
    assert_eq!(unquote_str("\"\\ude80\""), None);
    assert_eq!(unquote_str("\"a\\/b\""), Some("a/b".to_string()));
    assert_eq!(unquote_str("\"\\u00E9\""), Some("é".to_string()));
    assert_eq!(unquote_str("\"\\u00g9\""), None);
    assert_eq!(unquote_str(""), None);
    assert_eq!(unquote_str("\""), None);
    assert_eq!(unquote_str(" \"a\""), None);
}
