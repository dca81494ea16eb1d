use ask_human::endpoint::{
    banner, bind_address, bind_failure, endpoint_url, resolve_port, DEFAULT_PORT, QUEUE_CAPACITY,
};
use ask_human::text::{decimal_text, parse_port, trim, white_space};

#[test]
fn white_space_is_that_of_unicode() {
    for n in 0..0x11_0000u32 {
        if let Some(c) = char::from_u32(n) {
            assert_eq!(white_space(c), c.is_whitespace(), "U+{:04X}", n);
        }
    }
}

#[test]
fn trimming_takes_off_both_ends() {
    assert_eq!(trim("  yes, go on \n"), "yes, go on");
    assert_eq!(trim("yes"), "yes");
    assert_eq!(trim("\u{3000}ja\u{a0}"), "ja");
    assert_eq!(trim("a b"), "a b");
}

#[test]
fn trimming_blank_text_leaves_nothing() {
    assert_eq!(trim(""), "");
    assert_eq!(trim(" \t\r\n\u{2028}"), "");
}

#[test]
fn trimming_agrees_with_std() {
    for s in ["", " ", " a", "a ", " a b ", "\u{85}é\u{1680}", "\u{200b}x", "日本 ", "\u{180e}"] {
        assert_eq!(trim(s), s.trim());
        assert_eq!(trim(&trim(s)), trim(s));
    }
}

#[test]
fn ports_are_read() {
    assert_eq!(parse_port("8080"), Some(8080));
    assert_eq!(parse_port("0"), Some(0));
    assert_eq!(parse_port("65535"), Some(65535));
    assert_eq!(parse_port("+42"), Some(42));
    assert_eq!(parse_port("0000000003000"), Some(3000));
}

#[test]
fn other_text_is_no_port() {
    for s in ["", "+", "++1", "-1", "-0", "65536", "99999999999999999999", "80a", " 80", "80 ", "8_0", "٣"] {
        assert_eq!(parse_port(s), None, "{:?}", s);
        assert_eq!(parse_port(s), s.parse::<u16>().ok(), "{:?}", s);
    }
}

#[test]
fn every_port_survives_writing_and_reading() {
    for port in 0..=u16::MAX {
        let text = decimal_text(port);
        assert_eq!(text, port.to_string());
        assert_eq!(parse_port(&text), Some(port));
    }
}

#[test]
fn the_port_setting_overrides_the_default() {
    assert_eq!(resolve_port(Some("8080".to_string())), 8080);
    assert_eq!(resolve_port(None), 3000);
    assert_eq!(resolve_port(Some("http".to_string())), 3000);
    assert_eq!(resolve_port(Some("70000".to_string())), 3000);
    assert_eq!(DEFAULT_PORT, 3000);
    assert_eq!(QUEUE_CAPACITY, 128);
}

#[test]
fn the_endpoint_is_written_out() {
    assert_eq!(bind_address(3000), "127.0.0.1:3000");
    assert_eq!(endpoint_url(3000), "http://127.0.0.1:3000/mcp");
    assert_eq!(banner(3000), "AskHuman MCP server  →  http://127.0.0.1:3000/mcp");
    assert_eq!(
        bind_failure("127.0.0.1:80", "Permission denied"),
        "Failed to bind 127.0.0.1:80: Permission denied"
    );
}
