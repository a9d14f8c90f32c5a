//! The vocabulary of the module: command prefixes, the tokens of the closed
//! parameter sets, and the text of each command.

use crate::encoding::{lemma_ascii_bytes, lemma_decoded_len, lemma_encode_concat, utf8_len};
use crate::error::{Esp8266Error, StringConversionError};
use crate::text::{as_str, new_text, push_str, str_from_utf8, text_of};
use crate::util::{decimal, lemma_decimal_len_usize, lemma_decimal_plain, parse_to_str};
use vstd::prelude::*;
use vstd::utf8::{decode_utf8, encode_utf8, valid_utf8};

verus! {

/// Connectivity test.
pub const AT: &'static str = "AT";

/// Selects station or access-point mode; followed by `1`, `2` or `3`.
pub const AT_CWMODE: &'static str = "AT+CWMODE=";

/// Asks for the address the module has got from the network.
pub const AT_CIFSR: &'static str = "AT+CIFSR";

/// Joins a network; followed by the quoted name and passphrase.
pub const AT_CWJAP: &'static str = "AT+CWJAP=";

/// Opens a session; followed by protocol, remote address and port.
pub const AT_CIPSTART: &'static str = "AT+CIPSTART=";

/// Selects how data is transferred; followed by `0` or `1`.
pub const AT_CIPMODE: &'static str = "AT+CIPMODE=";

/// Announces a payload; followed by the number of bytes to come.
pub const AT_CIPSEND: &'static str = "AT+CIPSEND=";

/// Ends every command line.
pub const CRLF: &'static str = "\r\n";

/// Opens or closes a quoted parameter.
pub const QUOTE: &'static str = "\"";

/// Stands between two quoted parameters.
pub const QUOTE_COMMA_QUOTE: &'static str = "\",\"";

/// Stands between a quoted parameter and a bare one.
pub const QUOTE_COMMA: &'static str = "\",";

/// How many bytes each fixed piece of a command takes.
pub proof fn lemma_piece_lengths()
    ensures
        utf8_len(AT@) == 2,
        utf8_len(AT_CWMODE@) == 10,
        utf8_len(AT_CIFSR@) == 8,
        utf8_len(AT_CWJAP@) == 9,
        utf8_len(AT_CIPSTART@) == 12,
        utf8_len(AT_CIPMODE@) == 11,
        utf8_len(AT_CIPSEND@) == 11,
        utf8_len(CRLF@) == 2,
        utf8_len(QUOTE@) == 1,
        utf8_len(QUOTE_COMMA_QUOTE@) == 3,
        utf8_len(QUOTE_COMMA@) == 2,
{
    reveal_strlit("AT");
    reveal_strlit("AT+CWMODE=");
    reveal_strlit("AT+CIFSR");
    reveal_strlit("AT+CWJAP=");
    reveal_strlit("AT+CIPSTART=");
    reveal_strlit("AT+CIPMODE=");
    reveal_strlit("AT+CIPSEND=");
    reveal_strlit("\r\n");
    reveal_strlit("\"");
    reveal_strlit("\",\"");
    reveal_strlit("\",");
    lemma_ascii_bytes(AT@);
    lemma_ascii_bytes(AT_CWMODE@);
    lemma_ascii_bytes(AT_CIFSR@);
    lemma_ascii_bytes(AT_CWJAP@);
    lemma_ascii_bytes(AT_CIPSTART@);
    lemma_ascii_bytes(AT_CIPMODE@);
    lemma_ascii_bytes(AT_CIPSEND@);
    lemma_ascii_bytes(CRLF@);
    lemma_ascii_bytes(QUOTE@);
    lemma_ascii_bytes(QUOTE_COMMA_QUOTE@);
    lemma_ascii_bytes(QUOTE_COMMA@);
}

/// Whether the module acts as a station, as an access point, or as both.
#[derive(Debug, Clone, Copy, PartialEq, Eq, Structural)]
pub enum WifiMode {
    Station,
    SoftAP,
    StationSoftAP,
}

impl WifiMode {
    /// The token by which the module knows this mode.
    pub open spec fn token(self) -> Seq<char> {
        match self {
            WifiMode::Station => "1"@,
            WifiMode::SoftAP => "2"@,
            WifiMode::StationSoftAP => "3"@,
        }
    }

    /// The token by which the module knows this mode.
    pub fn as_str<'a>(&self) -> (r: &'a str)
        ensures
            r@ == self.token(),
    {
        match self {
            WifiMode::Station => "1",
            WifiMode::SoftAP => "2",
            WifiMode::StationSoftAP => "3",
        }
    }
}

/// The transport of a session.
#[derive(Debug, Clone, Copy, PartialEq, Eq, Structural)]
pub enum Protocol {
    Tcp,
    Udp,
    Ssl,
}

impl Protocol {
    /// The token by which the module knows this protocol.
    pub open spec fn token(self) -> Seq<char> {
        match self {
            Protocol::Tcp => "TCP"@,
            Protocol::Udp => "UDP"@,
            Protocol::Ssl => "SSL"@,
        }
    }

    /// The token by which the module knows this protocol.
    pub fn as_str<'a>(&self) -> (r: &'a str)
        ensures
            r@ == self.token(),
    {
        match self {
            Protocol::Tcp => "TCP",
            Protocol::Udp => "UDP",
            Protocol::Ssl => "SSL",
        }
    }
}

/// How the module passes session data on.
#[derive(Debug, Clone, Copy, PartialEq, Eq, Structural)]
pub enum DataTransferMode {
    Normal,
    Transparent,
}

impl DataTransferMode {
    /// The token by which the module knows this mode.
    pub open spec fn token(self) -> Seq<char> {
        match self {
            DataTransferMode::Normal => "0"@,
            DataTransferMode::Transparent => "1"@,
        }
    }

    /// The token by which the module knows this mode.
    pub fn as_str<'a>(&self) -> (r: &'a str)
        ensures
            r@ == self.token(),
    {
        match self {
            DataTransferMode::Normal => "0",
            DataTransferMode::Transparent => "1",
        }
    }
}

/// The token of a mode is its digit.
pub proof fn lemma_wifi_mode_token(mode: WifiMode)
    ensures
        mode.token() == match mode {
            WifiMode::Station => seq!['1'],
            WifiMode::SoftAP => seq!['2'],
            WifiMode::StationSoftAP => seq!['3'],
        },
        utf8_len(mode.token()) == 1,
{
    reveal_strlit("1");
    reveal_strlit("2");
    reveal_strlit("3");
    lemma_ascii_bytes(mode.token());
}

/// The token of a protocol is its name in three capital letters.
pub proof fn lemma_protocol_token(protocol: Protocol)
    ensures
        protocol.token() == match protocol {
            Protocol::Tcp => seq!['T', 'C', 'P'],
            Protocol::Udp => seq!['U', 'D', 'P'],
            Protocol::Ssl => seq!['S', 'S', 'L'],
        },
        utf8_len(protocol.token()) == 3,
{
    reveal_strlit("TCP");
    reveal_strlit("UDP");
    reveal_strlit("SSL");
    lemma_ascii_bytes(protocol.token());
}

/// The token of a transfer mode is its digit.
pub proof fn lemma_transfer_mode_token(mode: DataTransferMode)
    ensures
        mode.token() == match mode {
            DataTransferMode::Normal => seq!['0'],
            DataTransferMode::Transparent => seq!['1'],
        },
        utf8_len(mode.token()) == 1,
{
    reveal_strlit("0");
    reveal_strlit("1");
    lemma_ascii_bytes(mode.token());
}

/// A command, or the reason why there is none.
pub type Command = Result<heapless::String<256>, Esp8266Error>;

/// The mathematical content of a [`Command`].
pub open spec fn command_view(r: Command) -> Result<Seq<char>, Esp8266Error> {
    match r {
        Ok(command) => Ok(text_of(command)),
        Err(e) => Err(e),
    }
}

/// `text` if it fits a buffer, and the capacity error if it does not.
pub open spec fn fitted(text: Seq<char>) -> Result<Seq<char>, Esp8266Error> {
    if utf8_len(text) <= 256 {
        Ok(text)
    } else {
        Err(Esp8266Error::capacity())
    }
}

/// The connectivity test.
pub open spec fn test_text() -> Seq<char> {
    AT@
}

/// The command that selects `mode`.
pub open spec fn wifi_mode_text(mode: WifiMode) -> Seq<char> {
    AT_CWMODE@ + mode.token()
}

/// The command that joins the network `ssid` with `password`.
pub open spec fn join_text(ssid: Seq<char>, password: Seq<char>) -> Seq<char> {
    AT_CWJAP@ + QUOTE@ + ssid + QUOTE_COMMA_QUOTE@ + password + QUOTE@
}

/// The query for the association status.
pub open spec fn status_text() -> Seq<char> {
    AT_CIFSR@
}

/// The command that opens a session with `address` at `port`.
pub open spec fn session_text(protocol: Protocol, address: Seq<char>, port: u16) -> Seq<char> {
    AT_CIPSTART@ + QUOTE@ + protocol.token() + QUOTE_COMMA_QUOTE@ + address + QUOTE_COMMA@
        + decimal(port as nat)
}

/// The command that selects `mode`.
pub open spec fn transfer_mode_text(mode: DataTransferMode) -> Seq<char> {
    AT_CIPMODE@ + mode.token()
}

/// The command that announces `count` bytes.
pub open spec fn announce_text(count: nat) -> Seq<char> {
    AT_CIPSEND@ + decimal(count)
}

/// The join command for a name and a passphrase given as bytes: both have to
/// be valid UTF-8, and the command has to fit a buffer.
pub open spec fn joined(ssid: Seq<u8>, password: Seq<u8>) -> Result<Seq<char>, Esp8266Error> {
    if !valid_utf8(ssid) || !valid_utf8(password) {
        Err(Esp8266Error::utf8())
    } else {
        fitted(join_text(decode_utf8(ssid), decode_utf8(password)))
    }
}

/// The session command for an address given as bytes: it has to be valid
/// UTF-8, and the command has to fit a buffer.
pub open spec fn session(protocol: Protocol, address: Seq<u8>, port: u16) -> Result<
    Seq<char>,
    Esp8266Error,
> {
    if !valid_utf8(address) {
        Err(Esp8266Error::utf8())
    } else {
        fitted(session_text(protocol, decode_utf8(address), port))
    }
}

/// The text that `bytes` encode, or the UTF-8 error if they encode none.
pub open spec fn decoded(bytes: Seq<u8>) -> Result<Seq<char>, Esp8266Error> {
    if valid_utf8(bytes) {
        Ok(decode_utf8(bytes))
    } else {
        Err(Esp8266Error::utf8())
    }
}

/// The line that carries a command over the wire: the command with one CR-LF
/// behind it, if both fit a buffer. A command that could not be built has no
/// line, for the same reason.
pub open spec fn line_of(command: Result<Seq<char>, Esp8266Error>) -> Result<
    Seq<char>,
    Esp8266Error,
> {
    match command {
        Ok(text) => fitted(text + CRLF@),
        Err(e) => Err(e),
    }
}

/// The line that carries the command `command`, given as bytes: they have to
/// be valid UTF-8.
pub open spec fn framed(command: Seq<u8>) -> Result<Seq<char>, Esp8266Error> {
    line_of(decoded(command))
}

/// Appends `piece` to `command`, or fails if the result would not fit.
pub(crate) fn append(command: &mut heapless::String<256>, piece: &str) -> (r: Result<(), Esp8266Error>)
    ensures
        r is Ok <==> utf8_len(text_of(*old(command)) + piece@) <= 256,
        r is Ok ==> text_of(*final(command)) == text_of(*old(command)) + piece@,
        r is Err ==> r == Err::<(), Esp8266Error>(Esp8266Error::capacity()) && text_of(
            *final(command),
        ) == text_of(*old(command)),
{
    proof {
        lemma_encode_concat(text_of(*command), piece@);
    }
    match push_str(command, piece) {
        Ok(()) => Ok(()),
        Err(_) => Err(
            Esp8266Error::StringConversionError(StringConversionError::BufferConversionError),
        ),
    }
}

/// Views `bytes` as text, or fails if they are not valid UTF-8.
fn decode<'a>(bytes: &'a [u8]) -> (r: Result<&'a str, Esp8266Error>)
    ensures
        r is Ok <==> valid_utf8(bytes@),
        r matches Ok(s) ==> s@ == decode_utf8(bytes@) && utf8_len(s@) == bytes@.len(),
        r is Err ==> r == Err::<&str, Esp8266Error>(Esp8266Error::utf8()),
{
    match str_from_utf8(bytes) {
        Ok(s) => {
            proof {
                lemma_decoded_len(bytes@);
            }
            Ok(s)
        },
        Err(_) => Err(Esp8266Error::StringConversionError(StringConversionError::Utf8Error)),
    }
}

/// Builds the connectivity test.
pub fn test_command() -> (command: heapless::String<256>)
    ensures
        text_of(command) == test_text(),
{
    let mut command = new_text();
    proof {
        lemma_piece_lengths();
        assert(Seq::<char>::empty() + AT@ == AT@);
    }
    let _ = append(&mut command, AT);
    command
}

/// Builds the command that selects `mode`.
pub fn wifi_mode_command(mode: WifiMode) -> (command: heapless::String<256>)
    ensures
        text_of(command) == wifi_mode_text(mode),
{
    let mut command = new_text();
    proof {
        lemma_piece_lengths();
        lemma_wifi_mode_token(mode);
        assert(Seq::<char>::empty() + AT_CWMODE@ == AT_CWMODE@);
        lemma_encode_concat(AT_CWMODE@, mode.token());
    }
    let _ = append(&mut command, AT_CWMODE);
    let _ = append(&mut command, mode.as_str());
    command
}

/// Builds the query for the association status.
pub fn status_command() -> (command: heapless::String<256>)
    ensures
        text_of(command) == status_text(),
{
    let mut command = new_text();
    proof {
        lemma_piece_lengths();
        assert(Seq::<char>::empty() + AT_CIFSR@ == AT_CIFSR@);
    }
    let _ = append(&mut command, AT_CIFSR);
    command
}

/// Builds the command that selects `mode`.
pub fn transfer_mode_command(mode: DataTransferMode) -> (command: heapless::String<256>)
    ensures
        text_of(command) == transfer_mode_text(mode),
{
    let mut command = new_text();
    proof {
        lemma_piece_lengths();
        lemma_transfer_mode_token(mode);
        assert(Seq::<char>::empty() + AT_CIPMODE@ == AT_CIPMODE@);
        lemma_encode_concat(AT_CIPMODE@, mode.token());
    }
    let _ = append(&mut command, AT_CIPMODE);
    let _ = append(&mut command, mode.as_str());
    command
}

/// Builds the command that announces a payload of `count` bytes.
pub fn announce_command(count: usize) -> (command: heapless::String<256>)
    ensures
        text_of(command) == announce_text(count as nat),
{
    let mut command = new_text();
    proof {
        lemma_piece_lengths();
        lemma_decimal_len_usize(count);
        lemma_decimal_plain(count as nat);
        assert(Seq::<char>::empty() + AT_CIPSEND@ == AT_CIPSEND@);
        lemma_encode_concat(AT_CIPSEND@, decimal(count as nat));
    }
    let _ = append(&mut command, AT_CIPSEND);
    match parse_to_str(count) {
        Ok((digits, _)) => {
            let _ = append(&mut command, as_str(&digits));
        },
        Err(_) => {},
    }
    command
}

/// Builds the command that joins the network `ssid` with `password`. Fails
/// with the UTF-8 error if either is not valid UTF-8, and else with the
/// capacity error if the command is longer than a buffer.
pub fn join_command(ssid: &[u8], password: &[u8]) -> (r: Command)
    ensures
        command_view(r) == joined(ssid@, password@),
{
    let ssid = decode(ssid)?;
    let password = decode(password)?;
    let mut command = new_text();
    proof {
        let t1 = AT_CWJAP@;
        let t2 = t1 + QUOTE@;
        let t3 = t2 + ssid@;
        let t4 = t3 + QUOTE_COMMA_QUOTE@;
        let t5 = t4 + password@;
        assert(Seq::<char>::empty() + t1 == t1);
        lemma_encode_concat(t1, QUOTE@);
        lemma_encode_concat(t2, ssid@);
        lemma_encode_concat(t3, QUOTE_COMMA_QUOTE@);
        lemma_encode_concat(t4, password@);
        lemma_encode_concat(t5, QUOTE@);
    }
    append(&mut command, AT_CWJAP)?;
    append(&mut command, QUOTE)?;
    append(&mut command, ssid)?;
    append(&mut command, QUOTE_COMMA_QUOTE)?;
    append(&mut command, password)?;
    append(&mut command, QUOTE)?;
    Ok(command)
}

/// Builds the command that opens a session with `address` at `port`. Fails
/// with the UTF-8 error if the address is not valid UTF-8, and else with the
/// capacity error if the command is longer than a buffer.
pub fn session_command(protocol: Protocol, address: &[u8], port: u16) -> (r: Command)
    ensures
        command_view(r) == session(protocol, address@, port),
{
    let address = decode(address)?;
    let digits = match parse_to_str(port as usize) {
        Ok((digits, _)) => digits,
        Err(_) => {
            return Err(
                Esp8266Error::StringConversionError(StringConversionError::BufferConversionError),
            );
        },
    };
    let mut command = new_text();
    proof {
        let t1 = AT_CIPSTART@;
        let t2 = t1 + QUOTE@;
        let t3 = t2 + protocol.token();
        let t4 = t3 + QUOTE_COMMA_QUOTE@;
        let t5 = t4 + address@;
        let t6 = t5 + QUOTE_COMMA@;
        assert(Seq::<char>::empty() + t1 == t1);
        lemma_encode_concat(t1, QUOTE@);
        lemma_encode_concat(t2, protocol.token());
        lemma_encode_concat(t3, QUOTE_COMMA_QUOTE@);
        lemma_encode_concat(t4, address@);
        lemma_encode_concat(t5, QUOTE_COMMA@);
        lemma_encode_concat(t6, decimal(port as nat));
    }
    append(&mut command, AT_CIPSTART)?;
    append(&mut command, QUOTE)?;
    append(&mut command, protocol.as_str())?;
    append(&mut command, QUOTE_COMMA_QUOTE)?;
    append(&mut command, address)?;
    append(&mut command, QUOTE_COMMA)?;
    append(&mut command, as_str(&digits))?;
    Ok(command)
}

/// Puts `command` and one CR-LF behind it into a buffer. Fails with the
/// UTF-8 error if the command is not valid UTF-8, and else with the capacity
/// error if the line is longer than a buffer.
pub fn frame(command: &[u8]) -> (r: Command)
    ensures
        command_view(r) == framed(command@),
{
    let mut line = new_text();
    let text = decode(command)?;
    proof {
        assert(Seq::<char>::empty() + text@ == text@);
        lemma_encode_concat(text@, CRLF@);
    }
    append(&mut line, text)?;
    append(&mut line, CRLF)?;
    Ok(line)
}

/// A command is framed exactly when it is valid UTF-8 and leaves room for the
/// two bytes of the terminator. The bytes of the line are then the bytes of
/// the command with one CR and one LF behind them, whatever the command ends
/// with.
pub proof fn lemma_framed_bytes(command: Seq<u8>)
    ensures
        framed(command) is Ok <==> valid_utf8(command) && command.len() + 2 <= 256,
        framed(command) matches Ok(line) ==> encode_utf8(line) == command + seq![13u8, 10u8],
{
    if valid_utf8(command) {
        let text = decode_utf8(command);
        lemma_decoded_len(command);
        lemma_encode_concat(text, CRLF@);
        reveal_strlit("\r\n");
        lemma_ascii_bytes(CRLF@);
        assert(encode_utf8(CRLF@) == seq![13u8, 10u8]);
    }
}

} // verus!
