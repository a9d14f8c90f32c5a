use esp8266_driver::response::{
    contains_success_marker, logical_length, normalize_response, read_raw,
};
use esp8266_driver::{Esp8266Error, StringConversionError};

fn text(s: &str) -> heapless::String<256> {
    let mut buffer = heapless::String::new();
    buffer.push_str(s).unwrap();
    buffer
}

fn normalized(s: &str) -> (String, usize) {
    let (out, len) = normalize_response(&text(s));
    (out.as_str().to_string(), len)
}

#[test]
fn read_raw_keeps_the_bytes() {
    let (raw, len) = read_raw(b"\r\nOK\r\n").unwrap();
    assert_eq!(raw.as_str(), "\r\nOK\r\n");
    assert_eq!(len, 6);
}

#[test]
fn read_raw_of_nothing() {
    let (raw, len) = read_raw(b"").unwrap();
    assert_eq!(raw.as_str(), "");
    assert_eq!(len, 0);
}

#[test]
fn read_raw_counts_bytes_not_characters() {
    let (raw, len) = read_raw("gr\u{fc}n".as_bytes()).unwrap();
    assert_eq!(raw.as_str(), "gr\u{fc}n");
    assert_eq!(len, 5);
}

#[test]
fn read_raw_takes_a_full_buffer() {
    let bytes = [b'z'; 256];
    let (raw, len) = read_raw(&bytes).unwrap();
    assert_eq!(raw.len(), 256);
    assert_eq!(len, 256);
}

#[test]
fn read_raw_rejects_more_than_a_buffer() {
    let bytes = [b'z'; 257];
    assert_eq!(
        read_raw(&bytes),
        Err(Esp8266Error::StringConversionError(StringConversionError::BufferConversionError))
    );
}

#[test]
fn read_raw_rejects_invalid_utf8() {
    assert_eq!(
        read_raw(&[b'O', b'K', 0xc0]),
        Err(Esp8266Error::StringConversionError(StringConversionError::Utf8Error))
    );
}

#[test]
fn read_raw_reports_length_before_encoding() {
    let bytes = [0xffu8; 300];
    assert_eq!(
        read_raw(&bytes),
        Err(Esp8266Error::StringConversionError(StringConversionError::BufferConversionError))
    );
}

#[test]
fn normalize_cuts_line_ends_off() {
    assert_eq!(normalized("\r\nOK\r\n"), ("OK".to_string(), 2));
    assert_eq!(normalized("no ip\r\n"), ("no ip".to_string(), 5));
    assert_eq!(normalized("\n\n\rready\r\r\n\n"), ("ready".to_string(), 5));
}

#[test]
fn normalize_removes_carriage_returns_inside() {
    assert_eq!(normalized("AT\r\n\r\nOK\r\n"), ("AT\n\nOK".to_string(), 6));
    assert_eq!(normalized("a\rb"), ("ab".to_string(), 2));
}

#[test]
fn normalize_keeps_line_feeds_inside() {
    assert_eq!(normalized("one\ntwo\nthree"), ("one\ntwo\nthree".to_string(), 13));
}

#[test]
fn normalize_of_line_ends_only_is_empty() {
    assert_eq!(normalized("\r\n\r\n"), (String::new(), 0));
    assert_eq!(normalized(""), (String::new(), 0));
}

#[test]
fn normalize_keeps_other_whitespace() {
    assert_eq!(normalized(" OK \r\n"), (" OK ".to_string(), 4));
    assert_eq!(normalized("\tOK"), ("\tOK".to_string(), 3));
}

#[test]
fn normalize_leaves_no_carriage_return_and_no_line_feed_at_the_ends() {
    let samples = [
        "\r\n+CIFSR:STAIP,\"192.168.1.50\"\r\n\r\nOK\r\n",
        "\r\r\r",
        "x\r",
        "\nx",
        "\r\nbusy p...\r\n",
    ];
    for sample in samples {
        let (out, _) = normalized(sample);
        assert!(!out.contains('\r'));
        assert!(!out.starts_with('\n'));
        assert!(!out.ends_with('\n'));
    }
}

#[test]
fn normalize_twice_is_normalize_once() {
    let samples = ["\r\nAT\r\n\r\nOK\r\n", "plain", "\n\na\r\r\nb\n", "", "\r"];
    for sample in samples {
        let (once, len_once) = normalized(sample);
        let (twice, len_twice) = normalized(&once);
        assert_eq!(twice, once);
        assert_eq!(len_twice, len_once);
    }
}

#[test]
fn normalize_does_not_count_fill() {
    assert_eq!(normalized("OK\0\0\0"), ("OK\0\0\0".to_string(), 2));
    assert_eq!(normalized("\r\na\0b\r\n"), ("a\0b".to_string(), 2));
}

#[test]
fn normalize_counts_characters_not_bytes() {
    assert_eq!(normalized("\r\ngr\u{fc}n\r\n"), ("gr\u{fc}n".to_string(), 4));
}

#[test]
fn normalize_takes_a_full_buffer() {
    let mut full = String::new();
    for _ in 0..128 {
        full.push_str("a\r");
    }
    let (out, len) = normalized(&full);
    assert_eq!(out, "a".repeat(128));
    assert_eq!(len, 128);
}

#[test]
fn logical_length_skips_fill() {
    assert_eq!(logical_length(&text("")), 0);
    assert_eq!(logical_length(&text("OK")), 2);
    assert_eq!(logical_length(&text("\0O\0K\0")), 2);
    assert_eq!(logical_length(&text("\u{20ac}\u{20ac}")), 2);
}

#[test]
fn success_marker_is_found_anywhere() {
    assert!(contains_success_marker(&text("OK")));
    assert!(contains_success_marker(&text("192.168.1.50 OK")));
    assert!(contains_success_marker(&text("OK then more")));
    assert!(contains_success_marker(&text("OOK")));
    assert!(contains_success_marker(&text("LOOKING")));
}

#[test]
fn success_marker_is_not_made_up() {
    assert!(!contains_success_marker(&text("")));
    assert!(!contains_success_marker(&text("O")));
    assert!(!contains_success_marker(&text("K")));
    assert!(!contains_success_marker(&text("KO")));
    assert!(!contains_success_marker(&text("O K")));
    assert!(!contains_success_marker(&text("ok")));
    assert!(!contains_success_marker(&text("no ip")));
    assert!(!contains_success_marker(&text("O\nK")));
}
