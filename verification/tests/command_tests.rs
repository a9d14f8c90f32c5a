use esp8266_driver::command::{
    announce_command, frame, join_command, session_command, status_command, test_command,
    transfer_mode_command, wifi_mode_command,
};
use esp8266_driver::util::parse_to_str;
use esp8266_driver::{
    DataTransferMode, Esp8266Error, Protocol, StringConversionError, WifiMode, BUF_SIZE,
};

const TOO_LONG: Esp8266Error =
    Esp8266Error::StringConversionError(StringConversionError::BufferConversionError);
const NOT_UTF8: Esp8266Error =
    Esp8266Error::StringConversionError(StringConversionError::Utf8Error);

#[test]
fn buffer_holds_256_bytes() {
    assert_eq!(BUF_SIZE, 256);
}

#[test]
fn wifi_mode_tokens() {
    assert_eq!(WifiMode::Station.as_str(), "1");
    assert_eq!(WifiMode::SoftAP.as_str(), "2");
    assert_eq!(WifiMode::StationSoftAP.as_str(), "3");
}

#[test]
fn protocol_tokens() {
    assert_eq!(Protocol::Tcp.as_str(), "TCP");
    assert_eq!(Protocol::Udp.as_str(), "UDP");
    assert_eq!(Protocol::Ssl.as_str(), "SSL");
}

#[test]
fn data_transfer_mode_tokens() {
    assert_eq!(DataTransferMode::Normal.as_str(), "0");
    assert_eq!(DataTransferMode::Transparent.as_str(), "1");
}

#[test]
fn parse_to_str_renders_decimal() {
    let (text, len) = parse_to_str(0).unwrap();
    assert_eq!(text.as_str(), "0");
    assert_eq!(len, 1);
    let (text, len) = parse_to_str(5000).unwrap();
    assert_eq!(text.as_str(), "5000");
    assert_eq!(len, 4);
    let (text, len) = parse_to_str(65535).unwrap();
    assert_eq!(text.as_str(), "65535");
    assert_eq!(len, 5);
    let (text, len) = parse_to_str(1_000_000).unwrap();
    assert_eq!(text.as_str(), "1000000");
    assert_eq!(len, 7);
}

#[test]
fn parse_to_str_takes_the_largest_number() {
    let (text, len) = parse_to_str(usize::MAX).unwrap();
    assert_eq!(text.as_str(), format!("{}", usize::MAX));
    assert_eq!(len, text.len());
}

#[test]
fn fixed_commands() {
    assert_eq!(test_command().as_str(), "AT");
    assert_eq!(status_command().as_str(), "AT+CIFSR");
    assert_eq!(wifi_mode_command(WifiMode::Station).as_str(), "AT+CWMODE=1");
    assert_eq!(wifi_mode_command(WifiMode::SoftAP).as_str(), "AT+CWMODE=2");
    assert_eq!(wifi_mode_command(WifiMode::StationSoftAP).as_str(), "AT+CWMODE=3");
    assert_eq!(transfer_mode_command(DataTransferMode::Normal).as_str(), "AT+CIPMODE=0");
    assert_eq!(transfer_mode_command(DataTransferMode::Transparent).as_str(), "AT+CIPMODE=1");
}

#[test]
fn announce_command_counts_in_decimal() {
    assert_eq!(announce_command(0).as_str(), "AT+CIPSEND=0");
    assert_eq!(announce_command(44).as_str(), "AT+CIPSEND=44");
    assert_eq!(announce_command(256).as_str(), "AT+CIPSEND=256");
}

#[test]
fn join_command_home_secret1() {
    let command = join_command(b"home", b"secret1").unwrap();
    assert_eq!(command.as_str(), "AT+CWJAP=\"home\",\"secret1\"");
}

#[test]
fn join_command_with_empty_parameters() {
    let command = join_command(b"", b"").unwrap();
    assert_eq!(command.as_str(), "AT+CWJAP=\"\",\"\"");
}

#[test]
fn join_command_keeps_text_beyond_ascii() {
    let command = join_command("caf\u{e9}".as_bytes(), "p\u{e4}ss".as_bytes()).unwrap();
    assert_eq!(command.as_str(), "AT+CWJAP=\"caf\u{e9}\",\"p\u{e4}ss\"");
}

#[test]
fn join_command_rejects_invalid_utf8() {
    assert_eq!(join_command(&[0xff, 0xfe], b"secret1"), Err(NOT_UTF8));
    assert_eq!(join_command(b"home", &[0xc3]), Err(NOT_UTF8));
}

#[test]
fn join_command_reports_invalid_utf8_before_length() {
    let long = [b'a'; 300];
    assert_eq!(join_command(&long, &[0x80]), Err(NOT_UTF8));
}

#[test]
fn join_command_fills_the_buffer_exactly() {
    // 9 bytes of prefix, 5 of punctuation, 242 of parameters.
    let ssid = [b's'; 200];
    let password = [b'p'; 42];
    let command = join_command(&ssid, &password).unwrap();
    assert_eq!(command.len(), 256);
    assert!(command.as_str().starts_with("AT+CWJAP=\"sss"));
    assert!(command.as_str().ends_with("ppp\""));
}

#[test]
fn join_command_rejects_one_byte_too_many() {
    let ssid = [b's'; 200];
    let password = [b'p'; 43];
    assert_eq!(join_command(&ssid, &password), Err(TOO_LONG));
}

#[test]
fn session_command_tcp_5000() {
    let command = session_command(Protocol::Tcp, b"192.168.1.111", 5000).unwrap();
    assert_eq!(command.as_str(), "AT+CIPSTART=\"TCP\",\"192.168.1.111\",5000");
}

#[test]
fn session_command_renders_port_without_leading_zeros() {
    let command = session_command(Protocol::Udp, b"10.0.0.1", 80).unwrap();
    assert_eq!(command.as_str(), "AT+CIPSTART=\"UDP\",\"10.0.0.1\",80");
    let command = session_command(Protocol::Ssl, b"example.org", 0).unwrap();
    assert_eq!(command.as_str(), "AT+CIPSTART=\"SSL\",\"example.org\",0");
    let command = session_command(Protocol::Tcp, b"h", 65535).unwrap();
    assert_eq!(command.as_str(), "AT+CIPSTART=\"TCP\",\"h\",65535");
}

#[test]
fn session_command_rejects_invalid_utf8() {
    assert_eq!(session_command(Protocol::Tcp, &[0xe2, 0x82], 5000), Err(NOT_UTF8));
}

#[test]
fn session_command_rejects_an_address_too_long() {
    let address = [b'a'; 250];
    assert_eq!(session_command(Protocol::Tcp, &address, 5000), Err(TOO_LONG));
}

#[test]
fn frame_appends_one_terminator() {
    assert_eq!(frame(b"AT").unwrap().as_bytes(), b"AT\r\n");
    assert_eq!(frame(b"").unwrap().as_bytes(), b"\r\n");
}

#[test]
fn frame_appends_one_terminator_after_whitespace() {
    assert_eq!(frame(b"AT\r\n").unwrap().as_bytes(), b"AT\r\n\r\n");
    assert_eq!(frame(b"AT ").unwrap().as_bytes(), b"AT \r\n");
    assert_eq!(frame(b"AT\n").unwrap().as_bytes(), b"AT\n\r\n");
}

#[test]
fn frame_takes_254_bytes_and_no_more() {
    let fits = [b'x'; 254];
    let line = frame(&fits).unwrap();
    assert_eq!(line.len(), 256);
    assert!(line.as_str().ends_with("x\r\n"));
    let too_long = [b'x'; 255];
    assert_eq!(frame(&too_long), Err(TOO_LONG));
    let full = [b'x'; 256];
    assert_eq!(frame(&full), Err(TOO_LONG));
}

#[test]
fn frame_rejects_invalid_utf8() {
    assert_eq!(frame(&[b'A', 0xff]), Err(NOT_UTF8));
    let long_and_invalid = [0xffu8; 400];
    assert_eq!(frame(&long_and_invalid), Err(NOT_UTF8));
}
