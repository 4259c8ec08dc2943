use vstd::prelude::*;

use crate::private::Sealed;
use crate::deserialize::Deserialize;
use crate::serialize::Serialize;
use crate::sink::{self, ByteSink};
use crate::source::{self, ByteSource};

verus! {

/// A byte order. Only `BigEndian` and `LittleEndian` have it: the supertrait
/// `Sealed` cannot be implemented outside this crate.
pub trait Endianness: Sized + Sealed {
    /// Whether this order puts the most significant byte first.
    spec fn big() -> bool;

    /// Writes `value` in this order, through the order's own method of `Serialize`.
    fn serialize<W: ByteSink, S: Serialize<Self, W>>(value: S, writer: &mut W) -> (r: Result<(), W::Error>)
        ensures
            sink::wrote(old(writer).written(), final(writer).written(), value.encoding(Self::big()), r),
            W::infallible() ==> r is Ok,
            value.encoding(Self::big()).len() == 0 ==> r is Ok,
    ;

    /// Reads a value in this order, through the order's own method of `Deserialize`.
    fn deserialize<R: ByteSource, D: Deserialize<Self, R>>(reader: &mut R) -> (r: Result<D, R::Error>)
        ensures
            source::read_as(old(reader).pending(), final(reader).pending(),
                D::decoding(old(reader).pending(), Self::big()), r, R::reliable()),
    ;
}

/// Most significant byte first.
pub struct BigEndian;

/// Least significant byte first.
pub struct LittleEndian;

impl Endianness for BigEndian {
    open spec fn big() -> bool {
        true
    }

    fn serialize<W: ByteSink, S: Serialize<Self, W>>(value: S, writer: &mut W) -> (r: Result<(), W::Error>) {
        let r = value.serialize_be(writer);
        assert(<BigEndian as Endianness>::big());
        r
    }

    fn deserialize<R: ByteSource, D: Deserialize<Self, R>>(reader: &mut R) -> (r: Result<D, R::Error>) {
        let r = D::deserialize_be(reader);
        assert(<BigEndian as Endianness>::big());
        r
    }
}

impl Endianness for LittleEndian {
    open spec fn big() -> bool {
        false
    }

    fn serialize<W: ByteSink, S: Serialize<Self, W>>(value: S, writer: &mut W) -> (r: Result<(), W::Error>) {
        let r = value.serialize_le(writer);
        assert(!<LittleEndian as Endianness>::big());
        r
    }

    fn deserialize<R: ByteSource, D: Deserialize<Self, R>>(reader: &mut R) -> (r: Result<D, R::Error>) {
        let r = D::deserialize_le(reader);
        assert(!<LittleEndian as Endianness>::big());
        r
    }
}

} // verus!
