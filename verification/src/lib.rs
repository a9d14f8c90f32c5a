//! A transport-agnostic engine for the AT-command dialogue with an
//! ESP8266-class WiFi module.
//!
//! The engine never touches the serial line. Every operation is started by a
//! method of [`Esp8266Driver`], which answers with the [`Action`] the caller
//! has to carry out on the wire; the caller reports what happened as an
//! [`Event`] to [`Esp8266Driver::resume`] and receives the next action, until
//! the operation finishes. All text lives in fixed buffers of [`BUF_SIZE`]
//! bytes.

pub mod command;
pub mod dialogue;
pub mod driver;
pub mod encoding;
pub mod error;
pub mod response;
pub mod text;
pub mod util;

pub use command::{DataTransferMode, Protocol, WifiMode};
pub use driver::{Action, Esp8266Driver, Event, Outcome};
pub use error::{Esp8266Error, RxError, StringConversionError, TxError, UartError};
pub use text::BUF_SIZE;
