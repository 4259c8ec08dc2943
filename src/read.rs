use vstd::prelude::*;

use crate::deserialize::Deserialize;
use crate::endian::{BigEndian, Endianness, LittleEndian};
use crate::source::{self, ByteSource};

verus! {

/// Reading values from an origin in the order `E`, chosen by the caller's
/// generic parameter.
pub trait ERead<E: Endianness>: ByteSource + Sized {
    /// Reads a value in the order `E`.
    fn eread<D: Deserialize<E, Self>>(&mut self) -> (r: Result<D, Self::Error>)
        ensures
            source::read_as(old(self).pending(), final(self).pending(),
                D::decoding(old(self).pending(), E::big()), r, Self::reliable()),
    {
        E::deserialize(self)
    }
}

impl<R: ByteSource, E: Endianness> ERead<E> for R {}

/// Reading values from an origin in big order.
pub trait BERead: ByteSource + Sized {
    /// Reads a value in big order.
    fn eread<D: Deserialize<BigEndian, Self>>(&mut self) -> (r: Result<D, Self::Error>)
        ensures
            source::read_as(old(self).pending(), final(self).pending(),
                D::decoding(old(self).pending(), true), r, Self::reliable()),
    {
        BigEndian::deserialize(self)
    }

    /// Reads a value in big order.
    fn read_be<D: Deserialize<BigEndian, Self>>(&mut self) -> (r: Result<D, Self::Error>)
        ensures
            source::read_as(old(self).pending(), final(self).pending(),
                D::decoding(old(self).pending(), true), r, Self::reliable()),
    {
        BigEndian::deserialize(self)
    }

    /// Reads a value in little order.
    fn read_le<D: Deserialize<LittleEndian, Self>>(&mut self) -> (r: Result<D, Self::Error>)
        ensures
            source::read_as(old(self).pending(), final(self).pending(),
                D::decoding(old(self).pending(), false), r, Self::reliable()),
    {
        LittleEndian::deserialize(self)
    }
}

impl<R: ByteSource> BERead for R {}

/// Reading values from an origin in little order.
pub trait LERead: ByteSource + Sized {
    /// Reads a value in little order.
    fn eread<D: Deserialize<LittleEndian, Self>>(&mut self) -> (r: Result<D, Self::Error>)
        ensures
            source::read_as(old(self).pending(), final(self).pending(),
                D::decoding(old(self).pending(), false), r, Self::reliable()),
    {
        LittleEndian::deserialize(self)
    }

    /// Reads a value in big order.
    fn read_be<D: Deserialize<BigEndian, Self>>(&mut self) -> (r: Result<D, Self::Error>)
        ensures
            source::read_as(old(self).pending(), final(self).pending(),
                D::decoding(old(self).pending(), true), r, Self::reliable()),
    {
        BigEndian::deserialize(self)
    }

    /// Reads a value in little order.
    fn read_le<D: Deserialize<LittleEndian, Self>>(&mut self) -> (r: Result<D, Self::Error>)
        ensures
            source::read_as(old(self).pending(), final(self).pending(),
                D::decoding(old(self).pending(), false), r, Self::reliable()),
    {
        LittleEndian::deserialize(self)
    }
}

impl<R: ByteSource> LERead for R {}

} // verus!
