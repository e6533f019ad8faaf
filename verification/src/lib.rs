//! Host-side driver core for a serial-attached character-LCD module that
//! speaks a fixed binary packet protocol.
//!
//! The crate has two layers:
//!
//! - [`codec`]: a length-prefixed, CRC-protected framing codec that turns
//!   discrete [`codec::Packet`] values into wire bytes and back, with the
//!   CRC algorithm itself in [`crc`].
//! - the transaction engine ([`Device`]): drives one command/response
//!   exchange at a time against a byte stream, absorbing unsolicited report
//!   packets that interleave with responses, and offering a non-blocking
//!   poll for those reports.
//!
//! All I/O is kept outside: the engine works against an in-memory
//! [`codec::ByteStream`]; whatever owns the real port feeds received bytes
//! in and carries written bytes out.

pub mod codec;
pub mod crc;
pub mod device;

pub use device::{
    CursorStyle, Device, Error, FrameKind, Key, Report, NUM_COLUMNS, NUM_LEDS, NUM_ROWS,
};
