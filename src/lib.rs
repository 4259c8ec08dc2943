//! Values to and from bytes in a byte order that the caller picks.
//!
//! `BigEndian` and `LittleEndian` are the only byte orders (`Endianness`).
//! A type becomes writable by implementing `Serialize` and readable by
//! implementing `Deserialize`. Each has an order-free method and a pair of
//! order-specific ones. `EWrite`, `BEWrite` and `LEWrite` write to a
//! `ByteSink`. `ERead`, `BERead` and `LERead` read from a `ByteSource`.
//! Booleans and integers of 8 to 128 bits come with their encodings, and so
//! do slices and vectors of writable values.

use vstd::prelude::*;

pub mod bytes;
pub mod deserialize;
pub mod endian;
mod private;
pub mod read;
pub mod serialize;
pub mod sink;
pub mod source;
pub mod write;

pub use endian::{BigEndian, Endianness, LittleEndian};
pub use deserialize::Deserialize;
pub use read::{BERead, ERead, LERead};
pub use serialize::Serialize;
pub use sink::ByteSink;
pub use source::{ByteSource, SliceReader, UnexpectedEnd};
pub use write::{BEWrite, EWrite, LEWrite};

verus! {

} // verus!
