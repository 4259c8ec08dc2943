use vstd::prelude::*;

use crate::endian::{BigEndian, Endianness, LittleEndian};
use crate::serialize::Serialize;
use crate::sink::{self, ByteSink};

verus! {

/// Writing values to a destination in the order `E`, chosen by the caller's
/// generic parameter.
pub trait EWrite<E: Endianness>: ByteSink + Sized {
    /// Writes `value` in the order `E`.
    fn ewrite<S: Serialize<E, Self>>(&mut self, value: S) -> (r: Result<(), Self::Error>)
        ensures
            sink::wrote(old(self).written(), final(self).written(), value.encoding(E::big()), r),
            Self::infallible() ==> r is Ok,
            value.encoding(E::big()).len() == 0 ==> r is Ok,
    {
        E::serialize(value, self)
    }
}

impl<W: ByteSink, E: Endianness> EWrite<E> for W {}

/// Writing values to a destination in big order.
pub trait BEWrite: ByteSink + Sized {
    /// Writes `value` in big order.
    fn ewrite<S: Serialize<BigEndian, Self>>(&mut self, value: S) -> (r: Result<(), Self::Error>)
        ensures
            sink::wrote(old(self).written(), final(self).written(), value.encoding(true), r),
            Self::infallible() ==> r is Ok,
            value.encoding(true).len() == 0 ==> r is Ok,
    {
        BigEndian::serialize(value, self)
    }

    /// Writes `value` in big order.
    fn write_be<S: Serialize<BigEndian, Self>>(&mut self, value: S) -> (r: Result<(), Self::Error>)
        ensures
            sink::wrote(old(self).written(), final(self).written(), value.encoding(true), r),
            Self::infallible() ==> r is Ok,
            value.encoding(true).len() == 0 ==> r is Ok,
    {
        BigEndian::serialize(value, self)
    }

    /// Writes `value` in little order.
    fn write_le<S: Serialize<LittleEndian, Self>>(&mut self, value: S) -> (r: Result<(), Self::Error>)
        ensures
            sink::wrote(old(self).written(), final(self).written(), value.encoding(false), r),
            Self::infallible() ==> r is Ok,
            value.encoding(false).len() == 0 ==> r is Ok,
    {
        LittleEndian::serialize(value, self)
    }
}

impl<W: ByteSink> BEWrite for W {}

/// Writing values to a destination in little order.
pub trait LEWrite: ByteSink + Sized {
    /// Writes `value` in little order.
    fn ewrite<S: Serialize<LittleEndian, Self>>(&mut self, value: S) -> (r: Result<(), Self::Error>)
        ensures
            sink::wrote(old(self).written(), final(self).written(), value.encoding(false), r),
            Self::infallible() ==> r is Ok,
            value.encoding(false).len() == 0 ==> r is Ok,
    {
        LittleEndian::serialize(value, self)
    }

    /// Writes `value` in big order.
    fn write_be<S: Serialize<BigEndian, Self>>(&mut self, value: S) -> (r: Result<(), Self::Error>)
        ensures
            sink::wrote(old(self).written(), final(self).written(), value.encoding(true), r),
            Self::infallible() ==> r is Ok,
            value.encoding(true).len() == 0 ==> r is Ok,
    {
        BigEndian::serialize(value, self)
    }

    /// Writes `value` in little order.
    fn write_le<S: Serialize<LittleEndian, Self>>(&mut self, value: S) -> (r: Result<(), Self::Error>)
        ensures
            sink::wrote(old(self).written(), final(self).written(), value.encoding(false), r),
            Self::infallible() ==> r is Ok,
            value.encoding(false).len() == 0 ==> r is Ok,
    {
        LittleEndian::serialize(value, self)
    }
}

impl<W: ByteSink> LEWrite for W {}

} // verus!
