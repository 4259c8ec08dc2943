use vstd::prelude::*;

use crate::bytes::{self, be_number, le_number};
use crate::endian::Endianness;
use crate::serialize::{self, Serialize};
use crate::sink::ByteSink;
use crate::source::{self, ByteSource};
use vstd::arithmetic::div_mod::lemma_small_mod;

verus! {

/// Turning bytes into a value, for the order `E` and the origin `R`; the
/// mirror of `Serialize`.
///
/// A type whose bytes do not depend on the order says so with `order_free`,
/// implements `deserialize` and lets `deserialize_be` and `deserialize_le`
/// call it. A type whose bytes do implements `deserialize_be` and
/// `deserialize_le` alone; no verified caller can reach its `deserialize`.
pub trait Deserialize<E, R: ByteSource>: Sized {
    /// What decoding `bytes` in big order (`big`) or in little order gives:
    /// the value and how many bytes it takes, or `None` when there are too
    /// few.
    ///
    /// Every impl in this crate defines it. An impl written outside verified
    /// code may leave it at this default, which no proof relies on.
    closed spec fn decoding(bytes: Seq<u8>, big: bool) -> Option<(Self, nat)> {
        None
    }

    /// Whether the type reads its bytes through the order-free
    /// `deserialize`; unless an impl says so, it reads them through the
    /// order-specific pair only.
    closed spec fn order_free() -> bool {
        false
    }

    /// Reads a value whose bytes are the same in both orders.
    fn deserialize(reader: &mut R) -> (r: Result<Self, R::Error>)
        requires
            Self::order_free(),
            Self::decoding(old(reader).pending(), true) == Self::decoding(old(reader).pending(), false),
        ensures
            source::read_as(old(reader).pending(), final(reader).pending(),
                Self::decoding(old(reader).pending(), true), r, R::reliable()),
    {
        Self::deserialize_be(reader)
    }

    /// Reads a value in big order.
    fn deserialize_be(reader: &mut R) -> (r: Result<Self, R::Error>)
        ensures
            source::read_as(old(reader).pending(), final(reader).pending(),
                Self::decoding(old(reader).pending(), true), r, R::reliable()),
    ;

    /// Reads a value in little order.
    fn deserialize_le(reader: &mut R) -> (r: Result<Self, R::Error>)
        ensures
            source::read_as(old(reader).pending(), final(reader).pending(),
                Self::decoding(old(reader).pending(), false), r, R::reliable()),
    ;
}

/// The first byte of `bytes`, which must have one.
pub open spec fn first_byte(bytes: Seq<u8>) -> Option<(u8, nat)> {
    if bytes.len() >= 1 {
        Some((bytes[0], 1nat))
    } else {
        None
    }
}

/// Reads one byte.
fn read_byte<R: ByteSource>(reader: &mut R) -> (r: Result<u8, R::Error>)
    ensures
        source::read_as(old(reader).pending(), final(reader).pending(),
            first_byte(old(reader).pending()), r, R::reliable()),
{
    match reader.read_exact(1) {
        Ok(b) => Ok(b[0]),
        Err(e) => Err(e),
    }
}

/// The number that the first `width` bytes of `bytes` give in big order
/// (`big`) or in little order, which must be there.
pub open spec fn int_decoding(bytes: Seq<u8>, width: nat, big: bool) -> Option<(nat, nat)> {
    if bytes.len() >= width {
        Some((if big { bytes::be_value(bytes.take(width as int)) } else { bytes::le_value(bytes.take(width as int)) }, width))
    } else {
        None
    }
}

/// Reads a number of `width` bytes.
fn read_number<R: ByteSource>(reader: &mut R, width: usize, big: bool) -> (r: Result<u128, R::Error>)
    requires
        width <= 16,
    ensures
        match r {
            Ok(v) => {
                &&& int_decoding(old(reader).pending(), width as nat, big) is Some
                &&& (int_decoding(old(reader).pending(), width as nat, big)->0).0 == v
                &&& final(reader).pending() == old(reader).pending().skip(width as int)
            },
            Err(_) => !R::reliable() || old(reader).pending().len() < width,
        },
{
    match reader.read_exact(width) {
        Ok(b) => {
            if big {
                Ok(be_number(&b))
            } else {
                Ok(le_number(&b))
            }
        },
        Err(e) => Err(e),
    }
}

/// One byte: zero is `false`, any other is `true`.
impl<E: Endianness, R: ByteSource> Deserialize<E, R> for bool {
    open spec fn order_free() -> bool {
        true
    }

    open spec fn decoding(bytes: Seq<u8>, big: bool) -> Option<(bool, nat)> {
        if bytes.len() >= 1 {
            Some((bytes[0] != 0, 1nat))
        } else {
            None
        }
    }

    fn deserialize(reader: &mut R) -> (r: Result<bool, R::Error>) {
        match read_byte(reader) {
            Ok(b) => Ok(b != 0),
            Err(e) => Err(e),
        }
    }

    fn deserialize_be(reader: &mut R) -> (r: Result<bool, R::Error>) {
        <bool as Deserialize<E, R>>::deserialize(reader)
    }

    fn deserialize_le(reader: &mut R) -> (r: Result<bool, R::Error>) {
        <bool as Deserialize<E, R>>::deserialize(reader)
    }
}

/// One raw byte.
impl<E: Endianness, R: ByteSource> Deserialize<E, R> for u8 {
    open spec fn order_free() -> bool {
        true
    }

    open spec fn decoding(bytes: Seq<u8>, big: bool) -> Option<(u8, nat)> {
        first_byte(bytes)
    }

    fn deserialize(reader: &mut R) -> (r: Result<u8, R::Error>) {
        read_byte(reader)
    }

    fn deserialize_be(reader: &mut R) -> (r: Result<u8, R::Error>) {
        <u8 as Deserialize<E, R>>::deserialize(reader)
    }

    fn deserialize_le(reader: &mut R) -> (r: Result<u8, R::Error>) {
        <u8 as Deserialize<E, R>>::deserialize(reader)
    }
}

/// One raw byte, read as two's complement.
impl<E: Endianness, R: ByteSource> Deserialize<E, R> for i8 {
    open spec fn order_free() -> bool {
        true
    }

    open spec fn decoding(bytes: Seq<u8>, big: bool) -> Option<(i8, nat)> {
        if bytes.len() >= 1 {
            Some((bytes[0] as i8, 1nat))
        } else {
            None
        }
    }

    fn deserialize(reader: &mut R) -> (r: Result<i8, R::Error>) {
        match read_byte(reader) {
            Ok(b) => Ok(b as i8),
            Err(e) => Err(e),
        }
    }

    fn deserialize_be(reader: &mut R) -> (r: Result<i8, R::Error>) {
        <i8 as Deserialize<E, R>>::deserialize(reader)
    }

    fn deserialize_le(reader: &mut R) -> (r: Result<i8, R::Error>) {
        <i8 as Deserialize<E, R>>::deserialize(reader)
    }
}

/// 2 bytes, most significant first in big order and least significant
/// first in little order, read as an unsigned number.
impl<E: Endianness, R: ByteSource> Deserialize<E, R> for u16 {
    open spec fn decoding(bytes: Seq<u8>, big: bool) -> Option<(u16, nat)> {
        let d = int_decoding(bytes, 2, big);
        if d is Some {
            Some(((d->0).0 as u16, 2nat))
        } else {
            None
        }
    }

    fn deserialize_be(reader: &mut R) -> (r: Result<u16, R::Error>) {
        match read_number(reader, 2, true) {
            Ok(v) => Ok(v as u16),
            Err(e) => Err(e),
        }
    }

    fn deserialize_le(reader: &mut R) -> (r: Result<u16, R::Error>) {
        match read_number(reader, 2, false) {
            Ok(v) => Ok(v as u16),
            Err(e) => Err(e),
        }
    }
}

/// 4 bytes, most significant first in big order and least significant
/// first in little order, read as an unsigned number.
impl<E: Endianness, R: ByteSource> Deserialize<E, R> for u32 {
    open spec fn decoding(bytes: Seq<u8>, big: bool) -> Option<(u32, nat)> {
        let d = int_decoding(bytes, 4, big);
        if d is Some {
            Some(((d->0).0 as u32, 4nat))
        } else {
            None
        }
    }

    fn deserialize_be(reader: &mut R) -> (r: Result<u32, R::Error>) {
        match read_number(reader, 4, true) {
            Ok(v) => Ok(v as u32),
            Err(e) => Err(e),
        }
    }

    fn deserialize_le(reader: &mut R) -> (r: Result<u32, R::Error>) {
        match read_number(reader, 4, false) {
            Ok(v) => Ok(v as u32),
            Err(e) => Err(e),
        }
    }
}

/// 8 bytes, most significant first in big order and least significant
/// first in little order, read as an unsigned number.
impl<E: Endianness, R: ByteSource> Deserialize<E, R> for u64 {
    open spec fn decoding(bytes: Seq<u8>, big: bool) -> Option<(u64, nat)> {
        let d = int_decoding(bytes, 8, big);
        if d is Some {
            Some(((d->0).0 as u64, 8nat))
        } else {
            None
        }
    }

    fn deserialize_be(reader: &mut R) -> (r: Result<u64, R::Error>) {
        match read_number(reader, 8, true) {
            Ok(v) => Ok(v as u64),
            Err(e) => Err(e),
        }
    }

    fn deserialize_le(reader: &mut R) -> (r: Result<u64, R::Error>) {
        match read_number(reader, 8, false) {
            Ok(v) => Ok(v as u64),
            Err(e) => Err(e),
        }
    }
}

/// 16 bytes, most significant first in big order and least significant
/// first in little order, read as an unsigned number.
impl<E: Endianness, R: ByteSource> Deserialize<E, R> for u128 {
    open spec fn decoding(bytes: Seq<u8>, big: bool) -> Option<(u128, nat)> {
        let d = int_decoding(bytes, 16, big);
        if d is Some {
            Some(((d->0).0 as u128, 16nat))
        } else {
            None
        }
    }

    fn deserialize_be(reader: &mut R) -> (r: Result<u128, R::Error>) {
        match read_number(reader, 16, true) {
            Ok(v) => Ok(v),
            Err(e) => Err(e),
        }
    }

    fn deserialize_le(reader: &mut R) -> (r: Result<u128, R::Error>) {
        match read_number(reader, 16, false) {
            Ok(v) => Ok(v),
            Err(e) => Err(e),
        }
    }
}

/// 2 bytes, most significant first in big order and least significant
/// first in little order, read as two's complement.
impl<E: Endianness, R: ByteSource> Deserialize<E, R> for i16 {
    open spec fn decoding(bytes: Seq<u8>, big: bool) -> Option<(i16, nat)> {
        let d = int_decoding(bytes, 2, big);
        if d is Some {
            Some((((d->0).0 as u16) as i16, 2nat))
        } else {
            None
        }
    }

    fn deserialize_be(reader: &mut R) -> (r: Result<i16, R::Error>) {
        match read_number(reader, 2, true) {
            Ok(v) => Ok((v as u16) as i16),
            Err(e) => Err(e),
        }
    }

    fn deserialize_le(reader: &mut R) -> (r: Result<i16, R::Error>) {
        match read_number(reader, 2, false) {
            Ok(v) => Ok((v as u16) as i16),
            Err(e) => Err(e),
        }
    }
}

/// 4 bytes, most significant first in big order and least significant
/// first in little order, read as two's complement.
impl<E: Endianness, R: ByteSource> Deserialize<E, R> for i32 {
    open spec fn decoding(bytes: Seq<u8>, big: bool) -> Option<(i32, nat)> {
        let d = int_decoding(bytes, 4, big);
        if d is Some {
            Some((((d->0).0 as u32) as i32, 4nat))
        } else {
            None
        }
    }

    fn deserialize_be(reader: &mut R) -> (r: Result<i32, R::Error>) {
        match read_number(reader, 4, true) {
            Ok(v) => Ok((v as u32) as i32),
            Err(e) => Err(e),
        }
    }

    fn deserialize_le(reader: &mut R) -> (r: Result<i32, R::Error>) {
        match read_number(reader, 4, false) {
            Ok(v) => Ok((v as u32) as i32),
            Err(e) => Err(e),
        }
    }
}

/// 8 bytes, most significant first in big order and least significant
/// first in little order, read as two's complement.
impl<E: Endianness, R: ByteSource> Deserialize<E, R> for i64 {
    open spec fn decoding(bytes: Seq<u8>, big: bool) -> Option<(i64, nat)> {
        let d = int_decoding(bytes, 8, big);
        if d is Some {
            Some((((d->0).0 as u64) as i64, 8nat))
        } else {
            None
        }
    }

    fn deserialize_be(reader: &mut R) -> (r: Result<i64, R::Error>) {
        match read_number(reader, 8, true) {
            Ok(v) => Ok((v as u64) as i64),
            Err(e) => Err(e),
        }
    }

    fn deserialize_le(reader: &mut R) -> (r: Result<i64, R::Error>) {
        match read_number(reader, 8, false) {
            Ok(v) => Ok((v as u64) as i64),
            Err(e) => Err(e),
        }
    }
}

/// 16 bytes, most significant first in big order and least significant
/// first in little order, read as two's complement.
impl<E: Endianness, R: ByteSource> Deserialize<E, R> for i128 {
    open spec fn decoding(bytes: Seq<u8>, big: bool) -> Option<(i128, nat)> {
        let d = int_decoding(bytes, 16, big);
        if d is Some {
            Some((((d->0).0 as u128) as i128, 16nat))
        } else {
            None
        }
    }

    fn deserialize_be(reader: &mut R) -> (r: Result<i128, R::Error>) {
        match read_number(reader, 16, true) {
            Ok(v) => Ok((v as u128) as i128),
            Err(e) => Err(e),
        }
    }

    fn deserialize_le(reader: &mut R) -> (r: Result<i128, R::Error>) {
        match read_number(reader, 16, false) {
            Ok(v) => Ok((v as u128) as i128),
            Err(e) => Err(e),
        }
    }
}

/// Reading back the `width` bytes of a number below 256 to the power
/// `width`, in the order it was written and whatever follows, gives the
/// number and takes those bytes.
pub proof fn lemma_int_round_trip(v: nat, width: nat, big: bool, rest: Seq<u8>)
    requires
        v < bytes::pow256(width),
    ensures
        int_decoding(serialize::int_encoding(v, width, big) + rest, width, big) == Some((v, width)),
{
    let enc = serialize::int_encoding(v, width, big);
    bytes::lemma_le_bytes_len(v, width);
    assert((enc + rest).take(width as int) =~= enc);
    bytes::lemma_digits_value(v, width);
    lemma_small_mod(v, bytes::pow256(width));
}

/// Reading back the byte of a boolean, in either order and whatever follows,
/// gives the boolean and takes that byte.
pub proof fn lemma_round_trip_bool<E: Endianness, W: ByteSink, R: ByteSource>(v: bool, big: bool, rest: Seq<u8>)
    ensures
        <bool as Deserialize<E, R>>::decoding(<bool as Serialize<E, W>>::encoding(&v, big) + rest, big) == Some((v, 1nat)),
{
}

/// Reading back the byte of a `u8`, in either order and whatever follows,
/// gives the number and takes that byte.
pub proof fn lemma_round_trip_u8<E: Endianness, W: ByteSink, R: ByteSource>(v: u8, big: bool, rest: Seq<u8>)
    ensures
        <u8 as Deserialize<E, R>>::decoding(<u8 as Serialize<E, W>>::encoding(&v, big) + rest, big) == Some((v, 1nat)),
{
}

/// Reading back the byte of an `i8`, in either order and whatever follows,
/// gives the number and takes that byte.
pub proof fn lemma_round_trip_i8<E: Endianness, W: ByteSink, R: ByteSource>(v: i8, big: bool, rest: Seq<u8>)
    ensures
        <i8 as Deserialize<E, R>>::decoding(<i8 as Serialize<E, W>>::encoding(&v, big) + rest, big) == Some((v, 1nat)),
{
    assert((v as u8) as i8 == v) by (bit_vector);
}

/// Reading back the 2 bytes of a `u16`, in the order they were written and
/// whatever follows, gives the number and takes those bytes.
pub proof fn lemma_round_trip_u16<E: Endianness, W: ByteSink, R: ByteSource>(v: u16, big: bool, rest: Seq<u8>)
    ensures
        <u16 as Deserialize<E, R>>::decoding(<u16 as Serialize<E, W>>::encoding(&v, big) + rest, big) == Some((v, 2nat)),
{
    bytes::lemma_pow256_widths();
    lemma_int_round_trip(v as nat, 2, big, rest);
}

/// Reading back the 4 bytes of a `u32`, in the order they were written and
/// whatever follows, gives the number and takes those bytes.
pub proof fn lemma_round_trip_u32<E: Endianness, W: ByteSink, R: ByteSource>(v: u32, big: bool, rest: Seq<u8>)
    ensures
        <u32 as Deserialize<E, R>>::decoding(<u32 as Serialize<E, W>>::encoding(&v, big) + rest, big) == Some((v, 4nat)),
{
    bytes::lemma_pow256_widths();
    lemma_int_round_trip(v as nat, 4, big, rest);
}

/// Reading back the 8 bytes of a `u64`, in the order they were written and
/// whatever follows, gives the number and takes those bytes.
pub proof fn lemma_round_trip_u64<E: Endianness, W: ByteSink, R: ByteSource>(v: u64, big: bool, rest: Seq<u8>)
    ensures
        <u64 as Deserialize<E, R>>::decoding(<u64 as Serialize<E, W>>::encoding(&v, big) + rest, big) == Some((v, 8nat)),
{
    bytes::lemma_pow256_widths();
    lemma_int_round_trip(v as nat, 8, big, rest);
}

/// Reading back the 16 bytes of a `u128`, in the order they were written and
/// whatever follows, gives the number and takes those bytes.
pub proof fn lemma_round_trip_u128<E: Endianness, W: ByteSink, R: ByteSource>(v: u128, big: bool, rest: Seq<u8>)
    ensures
        <u128 as Deserialize<E, R>>::decoding(<u128 as Serialize<E, W>>::encoding(&v, big) + rest, big) == Some((v, 16nat)),
{
    bytes::lemma_pow256_widths();
    lemma_int_round_trip(v as nat, 16, big, rest);
}

/// Reading back the 2 bytes of an `i16`, in the order they were written and
/// whatever follows, gives the number and takes those bytes.
pub proof fn lemma_round_trip_i16<E: Endianness, W: ByteSink, R: ByteSource>(v: i16, big: bool, rest: Seq<u8>)
    ensures
        <i16 as Deserialize<E, R>>::decoding(<i16 as Serialize<E, W>>::encoding(&v, big) + rest, big) == Some((v, 2nat)),
{
    bytes::lemma_pow256_widths();
    lemma_int_round_trip((v as u16) as nat, 2, big, rest);
    assert((v as u16) as i16 == v) by (bit_vector);
}

/// Reading back the 4 bytes of an `i32`, in the order they were written and
/// whatever follows, gives the number and takes those bytes.
pub proof fn lemma_round_trip_i32<E: Endianness, W: ByteSink, R: ByteSource>(v: i32, big: bool, rest: Seq<u8>)
    ensures
        <i32 as Deserialize<E, R>>::decoding(<i32 as Serialize<E, W>>::encoding(&v, big) + rest, big) == Some((v, 4nat)),
{
    bytes::lemma_pow256_widths();
    lemma_int_round_trip((v as u32) as nat, 4, big, rest);
    assert((v as u32) as i32 == v) by (bit_vector);
}

/// Reading back the 8 bytes of an `i64`, in the order they were written and
/// whatever follows, gives the number and takes those bytes.
pub proof fn lemma_round_trip_i64<E: Endianness, W: ByteSink, R: ByteSource>(v: i64, big: bool, rest: Seq<u8>)
    ensures
        <i64 as Deserialize<E, R>>::decoding(<i64 as Serialize<E, W>>::encoding(&v, big) + rest, big) == Some((v, 8nat)),
{
    bytes::lemma_pow256_widths();
    lemma_int_round_trip((v as u64) as nat, 8, big, rest);
    assert((v as u64) as i64 == v) by (bit_vector);
}

/// Reading back the 16 bytes of an `i128`, in the order they were written and
/// whatever follows, gives the number and takes those bytes.
pub proof fn lemma_round_trip_i128<E: Endianness, W: ByteSink, R: ByteSource>(v: i128, big: bool, rest: Seq<u8>)
    ensures
        <i128 as Deserialize<E, R>>::decoding(<i128 as Serialize<E, W>>::encoding(&v, big) + rest, big) == Some((v, 16nat)),
{
    bytes::lemma_pow256_widths();
    lemma_int_round_trip((v as u128) as nat, 16, big, rest);
    assert((v as u128) as i128 == v) by (bit_vector);
}

} // verus!
