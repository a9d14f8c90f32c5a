//! The failures an operation can end with.

use crate::command::append;
use crate::encoding::{lemma_ascii_bytes, lemma_encode_concat, utf8_len};
use crate::text::{new_text, text_of};
use vstd::prelude::*;

verus! {

/// What the serial peripheral reported when a transfer went wrong.
#[derive(Clone, Copy, PartialEq, Eq, Structural, Debug)]
pub enum UartError {
    /// A stop bit was missing.
    Framing,
    /// Noise was detected on the line.
    Noise,
    /// The receiver was overrun before its data was fetched.
    Overrun,
    /// The parity check failed.
    Parity,
    /// The buffer handed to the peripheral was longer than one transfer can take.
    BufferTooLong,
    /// Any condition without a name of its own.
    Unknown,
}

/// A response could not be received.
#[derive(Clone, Copy, PartialEq, Eq, Structural, Debug)]
pub enum RxError {
    /// The read itself failed.
    ReadError(UartError),
    /// Nothing arrived within the time allowed.
    Timeout,
}

/// A command could not be transmitted.
#[derive(Clone, Copy, PartialEq, Eq, Structural, Debug)]
pub enum TxError {
    /// The write itself failed.
    WriteError(UartError),
}

/// Text could not be brought into a bounded buffer.
#[derive(Clone, Copy, PartialEq, Eq, Structural, Debug)]
pub enum StringConversionError {
    /// The bytes are not valid UTF-8.
    Utf8Error,
    /// The text is longer than the buffer.
    BufferConversionError,
}

/// Every way an operation of the driver can fail.
#[derive(Clone, Copy, PartialEq, Eq, Structural, Debug)]
pub enum Esp8266Error {
    RxError(RxError),
    TxError(TxError),
    StringConversionError(StringConversionError),
}

impl UartError {
    /// The name of the condition.
    pub open spec fn name(self) -> Seq<char> {
        match self {
            UartError::Framing => "Framing"@,
            UartError::Noise => "Noise"@,
            UartError::Overrun => "Overrun"@,
            UartError::Parity => "Parity"@,
            UartError::BufferTooLong => "BufferTooLong"@,
            UartError::Unknown => "Unknown"@,
        }
    }

    /// The name of the condition.
    pub fn as_str(&self) -> (r: &'static str)
        ensures
            r@ == self.name(),
    {
        match self {
            UartError::Framing => "Framing",
            UartError::Noise => "Noise",
            UartError::Overrun => "Overrun",
            UartError::Parity => "Parity",
            UartError::BufferTooLong => "BufferTooLong",
            UartError::Unknown => "Unknown",
        }
    }

    /// No name is longer than thirteen bytes.
    pub proof fn lemma_name_len(self)
        ensures
            utf8_len(self.name()) <= 13,
    {
        reveal_strlit("Framing");
        reveal_strlit("Noise");
        reveal_strlit("Overrun");
        reveal_strlit("Parity");
        reveal_strlit("BufferTooLong");
        reveal_strlit("Unknown");
        lemma_ascii_bytes(self.name());
    }
}

impl StringConversionError {
    /// The name of the failure.
    pub open spec fn name(self) -> Seq<char> {
        match self {
            StringConversionError::Utf8Error => "Utf8Error"@,
            StringConversionError::BufferConversionError => "BufferConversionError"@,
        }
    }

    /// The name of the failure.
    pub fn as_str(&self) -> (r: &'static str)
        ensures
            r@ == self.name(),
    {
        match self {
            StringConversionError::Utf8Error => "Utf8Error",
            StringConversionError::BufferConversionError => "BufferConversionError",
        }
    }

    /// No name is longer than twenty-one bytes.
    pub proof fn lemma_name_len(self)
        ensures
            utf8_len(self.name()) <= 21,
    {
        reveal_strlit("Utf8Error");
        reveal_strlit("BufferConversionError");
        lemma_ascii_bytes(self.name());
    }
}

impl RxError {
    /// The failure in words, for a log.
    pub open spec fn description(self) -> Seq<char> {
        match self {
            RxError::ReadError(e) => "RxError::ReadError("@ + e.name() + ")"@,
            RxError::Timeout => "RxError::Timeout"@,
        }
    }

    /// No description is longer than thirty-three bytes.
    pub proof fn lemma_description_len(self)
        ensures
            utf8_len(self.description()) <= 33,
            utf8_len("RxError::ReadError("@) <= 19,
            self matches RxError::ReadError(e) ==> utf8_len("RxError::ReadError("@ + e.name())
                <= 32,
    {
        reveal_strlit("RxError::ReadError(");
        reveal_strlit(")");
        reveal_strlit("RxError::Timeout");
        lemma_ascii_bytes("RxError::ReadError("@);
        lemma_ascii_bytes(")"@);
        lemma_ascii_bytes("RxError::Timeout"@);
        if let RxError::ReadError(e) = self {
            e.lemma_name_len();
            lemma_encode_concat("RxError::ReadError("@, e.name());
            lemma_encode_concat("RxError::ReadError("@ + e.name(), ")"@);
        }
    }

    /// Writes the failure in words, for a log.
    pub fn describe(&self) -> (r: heapless::String<256>)
        ensures
            text_of(r) == self.description(),
    {
        let mut r = new_text();
        proof {
            self.lemma_description_len();
            assert(Seq::<char>::empty() + "RxError::ReadError("@ == "RxError::ReadError("@);
            assert(Seq::<char>::empty() + "RxError::Timeout"@ == "RxError::Timeout"@);
        }
        match self {
            RxError::ReadError(e) => {
                let _ = append(&mut r, "RxError::ReadError(");
                let _ = append(&mut r, e.as_str());
                let _ = append(&mut r, ")");
            },
            RxError::Timeout => {
                let _ = append(&mut r, "RxError::Timeout");
            },
        }
        r
    }
}

impl TxError {
    /// The failure in words, for a log.
    pub open spec fn description(self) -> Seq<char> {
        match self {
            TxError::WriteError(e) => "TxError::WriteError("@ + e.name() + ")"@,
        }
    }

    /// No description is longer than thirty-four bytes.
    pub proof fn lemma_description_len(self)
        ensures
            utf8_len(self.description()) <= 34,
            utf8_len("TxError::WriteError("@) <= 20,
            self matches TxError::WriteError(e) ==> utf8_len("TxError::WriteError("@ + e.name())
                <= 33,
    {
        reveal_strlit("TxError::WriteError(");
        reveal_strlit(")");
        lemma_ascii_bytes("TxError::WriteError("@);
        lemma_ascii_bytes(")"@);
        let TxError::WriteError(e) = self;
        e.lemma_name_len();
        lemma_encode_concat("TxError::WriteError("@, e.name());
        lemma_encode_concat("TxError::WriteError("@ + e.name(), ")"@);
    }

    /// Writes the failure in words, for a log.
    pub fn describe(&self) -> (r: heapless::String<256>)
        ensures
            text_of(r) == self.description(),
    {
        let mut r = new_text();
        proof {
            self.lemma_description_len();
            assert(Seq::<char>::empty() + "TxError::WriteError("@ == "TxError::WriteError("@);
        }
        match self {
            TxError::WriteError(e) => {
                let _ = append(&mut r, "TxError::WriteError(");
                let _ = append(&mut r, e.as_str());
                let _ = append(&mut r, ")");
            },
        }
        r
    }
}

impl Esp8266Error {
    /// The error of a receive that ran out of time.
    pub open spec fn timeout() -> Esp8266Error {
        Esp8266Error::RxError(RxError::Timeout)
    }

    /// The error of input that is not valid UTF-8.
    pub open spec fn utf8() -> Esp8266Error {
        Esp8266Error::StringConversionError(StringConversionError::Utf8Error)
    }

    /// The error of text that does not fit a buffer.
    pub open spec fn capacity() -> Esp8266Error {
        Esp8266Error::StringConversionError(StringConversionError::BufferConversionError)
    }

    /// The words that say which kind of failure follows.
    pub open spec fn heading(self) -> Seq<char> {
        match self {
            Esp8266Error::RxError(_) => "Esp8266Error::RxError("@,
            Esp8266Error::TxError(_) => "Esp8266Error::TxError("@,
            Esp8266Error::StringConversionError(_) => "Esp8266Error::StringConversionError("@,
        }
    }

    /// The failure itself in words.
    pub open spec fn detail(self) -> Seq<char> {
        match self {
            Esp8266Error::RxError(e) => e.description(),
            Esp8266Error::TxError(e) => e.description(),
            Esp8266Error::StringConversionError(e) => e.name(),
        }
    }

    /// The failure in words, for a log: its kind, and the failure itself in
    /// brackets behind it.
    pub open spec fn description(self) -> Seq<char> {
        self.heading() + self.detail() + ")"@
    }

    /// No description is longer than seventy-one bytes.
    pub proof fn lemma_description_len(self)
        ensures
            utf8_len(self.heading()) <= 36,
            utf8_len(self.heading() + self.detail()) <= 70,
            utf8_len(self.description()) <= 71,
    {
        reveal_strlit("Esp8266Error::RxError(");
        reveal_strlit("Esp8266Error::TxError(");
        reveal_strlit("Esp8266Error::StringConversionError(");
        reveal_strlit(")");
        lemma_ascii_bytes(self.heading());
        lemma_ascii_bytes(")"@);
        match self {
            Esp8266Error::RxError(e) => e.lemma_description_len(),
            Esp8266Error::TxError(e) => e.lemma_description_len(),
            Esp8266Error::StringConversionError(e) => e.lemma_name_len(),
        }
        lemma_encode_concat(self.heading(), self.detail());
        lemma_encode_concat(self.heading() + self.detail(), ")"@);
    }

    /// Writes the failure in words, for a log.
    pub fn describe(&self) -> (r: heapless::String<256>)
        ensures
            text_of(r) == self.description(),
    {
        let mut r = new_text();
        proof {
            self.lemma_description_len();
            assert(Seq::<char>::empty() + self.heading() == self.heading());
        }
        match self {
            Esp8266Error::RxError(e) => {
                let detail = e.describe();
                let _ = append(&mut r, "Esp8266Error::RxError(");
                let _ = append(&mut r, crate::text::as_str(&detail));
            },
            Esp8266Error::TxError(e) => {
                let detail = e.describe();
                let _ = append(&mut r, "Esp8266Error::TxError(");
                let _ = append(&mut r, crate::text::as_str(&detail));
            },
            Esp8266Error::StringConversionError(e) => {
                let _ = append(&mut r, "Esp8266Error::StringConversionError(");
                let _ = append(&mut r, e.as_str());
            },
        }
        let _ = append(&mut r, ")");
        r
    }
}

} // verus!
