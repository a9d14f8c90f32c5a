use esp8266_driver::{Esp8266Error, RxError, StringConversionError, TxError, UartError};

#[test]
fn uart_error_names() {
    assert_eq!(UartError::Framing.as_str(), "Framing");
    assert_eq!(UartError::Noise.as_str(), "Noise");
    assert_eq!(UartError::Overrun.as_str(), "Overrun");
    assert_eq!(UartError::Parity.as_str(), "Parity");
    assert_eq!(UartError::BufferTooLong.as_str(), "BufferTooLong");
    assert_eq!(UartError::Unknown.as_str(), "Unknown");
}

#[test]
fn string_conversion_error_names() {
    assert_eq!(StringConversionError::Utf8Error.as_str(), "Utf8Error");
    assert_eq!(StringConversionError::BufferConversionError.as_str(), "BufferConversionError");
}

#[test]
fn rx_error_in_words() {
    assert_eq!(RxError::Timeout.describe().as_str(), "RxError::Timeout");
    assert_eq!(
        RxError::ReadError(UartError::Framing).describe().as_str(),
        "RxError::ReadError(Framing)"
    );
    assert_eq!(
        RxError::ReadError(UartError::BufferTooLong).describe().as_str(),
        "RxError::ReadError(BufferTooLong)"
    );
}

#[test]
fn tx_error_in_words() {
    assert_eq!(
        TxError::WriteError(UartError::Overrun).describe().as_str(),
        "TxError::WriteError(Overrun)"
    );
    assert_eq!(
        TxError::WriteError(UartError::BufferTooLong).describe().as_str(),
        "TxError::WriteError(BufferTooLong)"
    );
}

#[test]
fn driver_error_in_words() {
    assert_eq!(
        Esp8266Error::RxError(RxError::Timeout).describe().as_str(),
        "Esp8266Error::RxError(RxError::Timeout)"
    );
    assert_eq!(
        Esp8266Error::RxError(RxError::ReadError(UartError::Parity)).describe().as_str(),
        "Esp8266Error::RxError(RxError::ReadError(Parity))"
    );
    assert_eq!(
        Esp8266Error::TxError(TxError::WriteError(UartError::Noise)).describe().as_str(),
        "Esp8266Error::TxError(TxError::WriteError(Noise))"
    );
    assert_eq!(
        Esp8266Error::StringConversionError(StringConversionError::Utf8Error)
            .describe()
            .as_str(),
        "Esp8266Error::StringConversionError(Utf8Error)"
    );
    assert_eq!(
        Esp8266Error::StringConversionError(StringConversionError::BufferConversionError)
            .describe()
            .as_str(),
        "Esp8266Error::StringConversionError(BufferConversionError)"
    );
}

#[test]
fn errors_compare_by_value() {
    assert_eq!(
        Esp8266Error::RxError(RxError::Timeout),
        Esp8266Error::RxError(RxError::Timeout)
    );
    assert_ne!(
        Esp8266Error::RxError(RxError::Timeout),
        Esp8266Error::RxError(RxError::ReadError(UartError::Noise))
    );
    assert_ne!(
        Esp8266Error::TxError(TxError::WriteError(UartError::Noise)),
        Esp8266Error::TxError(TxError::WriteError(UartError::Parity))
    );
    let e = Esp8266Error::StringConversionError(StringConversionError::Utf8Error);
    let copy = e;
    assert_eq!(e, copy);
}
