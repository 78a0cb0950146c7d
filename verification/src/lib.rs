//! Encoder and decoder for the serial line CAN (SLCAN) text protocol, the
//! ASCII protocol that serial CAN adapters speak.
//!
//! A [`Frame`] is one CAN frame. The commands [`Setup`], [`Open`], [`Close`]
//! and [`Transmit`] each have a `format` that gives the text that the adapter
//! reads, and a `try_parse` that reads a command from the front of a text and
//! hands out the text behind it. Hexadecimal digits are written in upper case
//! and read in either case. [`wire`] states the format as mathematics, and
//! [`laws`] proves that what is written reads back as itself and that nothing
//! else reads as a command.

pub mod bitrate;
pub mod command;
pub mod error;
pub mod frame;
pub mod hex;
pub mod id;
pub mod laws;
mod text;
pub mod wire;

pub use bitrate::Bitrate;
pub use command::{Close, Command, Open, Setup, Transmit};
pub use error::{ParseError, ParseErrorKind};
pub use frame::Frame;
pub use id::{ExtendedId, Id, StandardId};
