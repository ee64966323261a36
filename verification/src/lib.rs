//! Addresses of DMX512 channels, read from text and written back to it.
//!
//! A DMX universe has 512 channels, and a lighting rig has many universes.
//! A channel is named `universe.channel`, as in `4.465`, or by its absolute
//! address, which counts the channels through all universes: `2001` is the
//! same channel. [`DMXAddress`] holds both: the universe, the channel in it
//! and the absolute address.
//!
//! `DMXAddress::try_from` reads either form from a `&str` and returns a
//! [`DMXParseError`] for every text that names no channel; it never panics.
//! `DMXAddress::to_string` writes the `universe.channel` form. Reading what
//! was written gives the same address again.
//!
//! - [`address`]: the address, how it is read and written.
//! - [`decimal`]: numbers in base ten, read and written.
//! - [`text`]: cutting a text at a character.
//! - [`error`]: the error of reading.
//! - [`laws`]: what holds of every address and every text, with proof.

pub mod address;
pub mod decimal;
pub mod error;
pub mod laws;
pub mod text;

pub use address::DMXAddress;
pub use error::DMXParseError;
