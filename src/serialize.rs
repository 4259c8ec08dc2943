use vstd::prelude::*;

use crate::bytes::{self, be_digits, le_digits};
use crate::endian::Endianness;
use crate::sink::{self, ByteSink};

verus! {

/// Turning a value into bytes, for the order `E` and the destination `W`.
///
/// A type whose bytes do not depend on the order says so with `order_free`,
/// implements `serialize` and lets `serialize_be` and `serialize_le` call
/// it. A type whose bytes do implements `serialize_be` and `serialize_le`
/// alone; no verified caller can reach its `serialize`.
pub trait Serialize<E, W: ByteSink>: Sized {
    /// The bytes of the value in big order (`big`) or in little order.
    ///
    /// Every impl in this crate defines it. An impl written outside verified
    /// code may leave it at this default, which no proof relies on.
    closed spec fn encoding(&self, big: bool) -> Seq<u8> {
        Seq::empty()
    }

    /// Whether the type writes its bytes through the order-free `serialize`;
    /// unless an impl says so, it writes them through the order-specific
    /// pair only.
    closed spec fn order_free() -> bool {
        false
    }

    /// Writes the value's bytes, which are the same in both orders.
    fn serialize(self, writer: &mut W) -> (r: Result<(), W::Error>)
        requires
            Self::order_free(),
            self.encoding(true) == self.encoding(false),
        ensures
            sink::wrote(old(writer).written(), final(writer).written(), self.encoding(true), r),
            W::infallible() ==> r is Ok,
            self.encoding(true).len() == 0 ==> r is Ok,
    {
        self.serialize_be(writer)
    }

    /// Writes the value's bytes in big order.
    fn serialize_be(self, writer: &mut W) -> (r: Result<(), W::Error>)
        ensures
            sink::wrote(old(writer).written(), final(writer).written(), self.encoding(true), r),
            W::infallible() ==> r is Ok,
            self.encoding(true).len() == 0 ==> r is Ok,
    ;

    /// Writes the value's bytes in little order.
    fn serialize_le(self, writer: &mut W) -> (r: Result<(), W::Error>)
        ensures
            sink::wrote(old(writer).written(), final(writer).written(), self.encoding(false), r),
            W::infallible() ==> r is Ok,
            self.encoding(false).len() == 0 ==> r is Ok,
    ;
}

/// One byte, 0 or 1, in both orders.
impl<E: Endianness, W: ByteSink> Serialize<E, W> for bool {
    open spec fn order_free() -> bool {
        true
    }

    open spec fn encoding(&self, big: bool) -> Seq<u8> {
        seq![if *self { 1u8 } else { 0u8 }]
    }

    fn serialize(self, writer: &mut W) -> (r: Result<(), W::Error>) {
        let b: u8 = if self { 1 } else { 0 };
        let buf: [u8; 1] = [b];
        let r = writer.write_all(&buf);
        proof {
            assert(buf@ == seq![b]);
        }
        r
    }

    fn serialize_be(self, writer: &mut W) -> (r: Result<(), W::Error>) {
        <bool as Serialize<E, W>>::serialize(self, writer)
    }

    fn serialize_le(self, writer: &mut W) -> (r: Result<(), W::Error>) {
        <bool as Serialize<E, W>>::serialize(self, writer)
    }
}


/// One raw byte, in both orders.
impl<E: Endianness, W: ByteSink> Serialize<E, W> for u8 {
    open spec fn order_free() -> bool {
        true
    }

    open spec fn encoding(&self, big: bool) -> Seq<u8> {
        seq![*self]
    }

    fn serialize(self, writer: &mut W) -> (r: Result<(), W::Error>) {
        let buf: [u8; 1] = [self];
        let r = writer.write_all(&buf);
        proof {
            assert(buf@ == seq![self]);
        }
        r
    }

    fn serialize_be(self, writer: &mut W) -> (r: Result<(), W::Error>) {
        <u8 as Serialize<E, W>>::serialize(self, writer)
    }

    fn serialize_le(self, writer: &mut W) -> (r: Result<(), W::Error>) {
        <u8 as Serialize<E, W>>::serialize(self, writer)
    }
}

/// One raw byte, the two's complement of the value, in both orders.
impl<E: Endianness, W: ByteSink> Serialize<E, W> for i8 {
    open spec fn order_free() -> bool {
        true
    }

    open spec fn encoding(&self, big: bool) -> Seq<u8> {
        seq![*self as u8]
    }

    fn serialize(self, writer: &mut W) -> (r: Result<(), W::Error>) {
        let b: u8 = self as u8;
        let buf: [u8; 1] = [b];
        let r = writer.write_all(&buf);
        proof {
            assert(buf@ == seq![b]);
        }
        r
    }

    fn serialize_be(self, writer: &mut W) -> (r: Result<(), W::Error>) {
        <i8 as Serialize<E, W>>::serialize(self, writer)
    }

    fn serialize_le(self, writer: &mut W) -> (r: Result<(), W::Error>) {
        <i8 as Serialize<E, W>>::serialize(self, writer)
    }
}

/// The bytes of the unsigned number `v`, `width` of them, in big order
/// (`big`) or in little order.
pub open spec fn int_encoding(v: nat, width: nat, big: bool) -> Seq<u8> {
    if big {
        bytes::be_bytes(v, width)
    } else {
        bytes::le_bytes(v, width)
    }
}

/// A number's bytes in big order are its bytes in little order reversed, and
/// the two differ exactly when those bytes are not a palindrome.
pub proof fn lemma_int_orders_reversed(v: nat, width: nat)
    ensures
        int_encoding(v, width, true) == int_encoding(v, width, false).reverse(),
        int_encoding(v, width, true) != int_encoding(v, width, false)
            <==> int_encoding(v, width, false) != int_encoding(v, width, false).reverse(),
{
}

/// A boolean and an 8-bit number have the same bytes in both orders.
pub proof fn lemma_single_bytes_order_free<E: Endianness, W: ByteSink>(b: bool, u: u8, i: i8)
    ensures
        <bool as Serialize<E, W>>::encoding(&b, true) == <bool as Serialize<E, W>>::encoding(&b, false),
        <u8 as Serialize<E, W>>::encoding(&u, true) == <u8 as Serialize<E, W>>::encoding(&u, false),
        <i8 as Serialize<E, W>>::encoding(&i, true) == <i8 as Serialize<E, W>>::encoding(&i, false),
        <bool as Serialize<E, W>>::encoding(&b, true).len() == 1,
        <u8 as Serialize<E, W>>::encoding(&u, true).len() == 1,
        <i8 as Serialize<E, W>>::encoding(&i, true).len() == 1,
{
}

/// Writes the `width` digits of `v` in big order.
fn write_be_digits<W: ByteSink>(writer: &mut W, v: u128, width: usize) -> (r: Result<(), W::Error>)
    requires
        width <= 16,
    ensures
        sink::wrote(old(writer).written(), final(writer).written(), bytes::be_bytes(v as nat, width as nat), r),
        W::infallible() ==> r is Ok,
{
    let buf = be_digits(v, width);
    writer.write_all(buf.as_slice())
}

/// Writes the `width` digits of `v` in little order.
fn write_le_digits<W: ByteSink>(writer: &mut W, v: u128, width: usize) -> (r: Result<(), W::Error>)
    requires
        width <= 16,
    ensures
        sink::wrote(old(writer).written(), final(writer).written(), bytes::le_bytes(v as nat, width as nat), r),
        W::infallible() ==> r is Ok,
{
    let buf = le_digits(v, width);
    writer.write_all(buf.as_slice())
}

/// The value, 2 bytes, most significant first in big order and least
/// significant first in little order.
impl<E: Endianness, W: ByteSink> Serialize<E, W> for u16 {
    open spec fn encoding(&self, big: bool) -> Seq<u8> {
        int_encoding(*self as nat, 2, big)
    }

    fn serialize_be(self, writer: &mut W) -> (r: Result<(), W::Error>) {
        write_be_digits(writer, self as u128, 2)
    }

    fn serialize_le(self, writer: &mut W) -> (r: Result<(), W::Error>) {
        write_le_digits(writer, self as u128, 2)
    }
}

/// The value, 4 bytes, most significant first in big order and least
/// significant first in little order.
impl<E: Endianness, W: ByteSink> Serialize<E, W> for u32 {
    open spec fn encoding(&self, big: bool) -> Seq<u8> {
        int_encoding(*self as nat, 4, big)
    }

    fn serialize_be(self, writer: &mut W) -> (r: Result<(), W::Error>) {
        write_be_digits(writer, self as u128, 4)
    }

    fn serialize_le(self, writer: &mut W) -> (r: Result<(), W::Error>) {
        write_le_digits(writer, self as u128, 4)
    }
}

/// The value, 8 bytes, most significant first in big order and least
/// significant first in little order.
impl<E: Endianness, W: ByteSink> Serialize<E, W> for u64 {
    open spec fn encoding(&self, big: bool) -> Seq<u8> {
        int_encoding(*self as nat, 8, big)
    }

    fn serialize_be(self, writer: &mut W) -> (r: Result<(), W::Error>) {
        write_be_digits(writer, self as u128, 8)
    }

    fn serialize_le(self, writer: &mut W) -> (r: Result<(), W::Error>) {
        write_le_digits(writer, self as u128, 8)
    }
}

/// The value, 16 bytes, most significant first in big order and least
/// significant first in little order.
impl<E: Endianness, W: ByteSink> Serialize<E, W> for u128 {
    open spec fn encoding(&self, big: bool) -> Seq<u8> {
        int_encoding(*self as nat, 16, big)
    }

    fn serialize_be(self, writer: &mut W) -> (r: Result<(), W::Error>) {
        write_be_digits(writer, self, 16)
    }

    fn serialize_le(self, writer: &mut W) -> (r: Result<(), W::Error>) {
        write_le_digits(writer, self, 16)
    }
}

/// The two's complement of the value, 2 bytes, most significant first in big order and least
/// significant first in little order.
impl<E: Endianness, W: ByteSink> Serialize<E, W> for i16 {
    open spec fn encoding(&self, big: bool) -> Seq<u8> {
        int_encoding((*self as u16) as nat, 2, big)
    }

    fn serialize_be(self, writer: &mut W) -> (r: Result<(), W::Error>) {
        write_be_digits(writer, self as u16 as u128, 2)
    }

    fn serialize_le(self, writer: &mut W) -> (r: Result<(), W::Error>) {
        write_le_digits(writer, self as u16 as u128, 2)
    }
}

/// The two's complement of the value, 4 bytes, most significant first in big order and least
/// significant first in little order.
impl<E: Endianness, W: ByteSink> Serialize<E, W> for i32 {
    open spec fn encoding(&self, big: bool) -> Seq<u8> {
        int_encoding((*self as u32) as nat, 4, big)
    }

    fn serialize_be(self, writer: &mut W) -> (r: Result<(), W::Error>) {
        write_be_digits(writer, self as u32 as u128, 4)
    }

    fn serialize_le(self, writer: &mut W) -> (r: Result<(), W::Error>) {
        write_le_digits(writer, self as u32 as u128, 4)
    }
}

/// The two's complement of the value, 8 bytes, most significant first in big order and least
/// significant first in little order.
impl<E: Endianness, W: ByteSink> Serialize<E, W> for i64 {
    open spec fn encoding(&self, big: bool) -> Seq<u8> {
        int_encoding((*self as u64) as nat, 8, big)
    }

    fn serialize_be(self, writer: &mut W) -> (r: Result<(), W::Error>) {
        write_be_digits(writer, self as u64 as u128, 8)
    }

    fn serialize_le(self, writer: &mut W) -> (r: Result<(), W::Error>) {
        write_le_digits(writer, self as u64 as u128, 8)
    }
}

/// The two's complement of the value, 16 bytes, most significant first in big order and least
/// significant first in little order.
impl<E: Endianness, W: ByteSink> Serialize<E, W> for i128 {
    open spec fn encoding(&self, big: bool) -> Seq<u8> {
        int_encoding((*self as u128) as nat, 16, big)
    }

    fn serialize_be(self, writer: &mut W) -> (r: Result<(), W::Error>) {
        write_be_digits(writer, self as u128 as u128, 16)
    }

    fn serialize_le(self, writer: &mut W) -> (r: Result<(), W::Error>) {
        write_le_digits(writer, self as u128 as u128, 16)
    }
}

/// The elements' bytes, one after another, each in the order `E`.
pub open spec fn encodings<E: Endianness, W: ByteSink, S: Serialize<E, W>>(s: Seq<S>) -> Seq<u8>
    decreases s.len(),
{
    if s.len() == 0 {
        Seq::empty()
    } else {
        encodings::<E, W, S>(s.drop_last()) + s.last().encoding(E::big())
    }
}

/// The bytes of two sequences one after the other are the bytes of the
/// first followed by the bytes of the second.
pub proof fn lemma_encodings_append<E: Endianness, W: ByteSink, S: Serialize<E, W>>(s: Seq<S>, t: Seq<S>)
    ensures
        encodings::<E, W, S>(s + t) == encodings::<E, W, S>(s) + encodings::<E, W, S>(t),
    decreases t.len(),
{
    if t.len() == 0 {
        assert(s + t =~= s);
        assert(encodings::<E, W, S>(s) + Seq::<u8>::empty() =~= encodings::<E, W, S>(s));
    } else {
        assert((s + t).drop_last() =~= s + t.drop_last());
        lemma_encodings_append::<E, W, S>(s, t.drop_last());
        assert(encodings::<E, W, S>(s + t) =~= encodings::<E, W, S>(s) + encodings::<E, W, S>(t));
    }
}

/// Each element in turn, in the order `E`, in both orders of the call.
impl<'a, E: Endianness, W: ByteSink, S: Copy + Serialize<E, W>> Serialize<E, W> for &'a [S] {
    open spec fn order_free() -> bool {
        true
    }

    open spec fn encoding(&self, big: bool) -> Seq<u8> {
        encodings::<E, W, S>(self@)
    }

    fn serialize(self, writer: &mut W) -> (r: Result<(), W::Error>) {
        let ghost before = writer.written();
        let mut i: usize = 0;
        while i < self.len()
            invariant
                i <= self@.len(),
                before == old(writer).written(),
                writer.written() == before + encodings::<E, W, S>(self@.take(i as int)),
            decreases self@.len() - i,
        {
            let ghost mid = writer.written();
            let elem: S = self[i];
            let r = E::serialize(elem, writer);
            proof {
                assert(self@.take(i + 1 as int).drop_last() =~= self@.take(i as int));
                assert(self@.take(i + 1 as int) =~= self@.take(i as int) + seq![elem]);
                assert(self@ =~= self@.take(i + 1 as int) + self@.skip(i + 1 as int));
                lemma_encodings_append::<E, W, S>(self@.take(i + 1 as int), self@.skip(i + 1 as int));
            }
            match r {
                Ok(()) => {},
                Err(e) => {
                    proof {
                        let whole = before + encodings::<E, W, S>(self@);
                        let upto = mid + elem.encoding(E::big());
                        assert(upto =~= before + encodings::<E, W, S>(self@.take(i + 1 as int)));
                        assert(whole =~= upto + encodings::<E, W, S>(self@.skip(i + 1 as int)));
                        let n = writer.written().len() as int;
                        assert(whole.take(n) =~= upto.take(n));
                    }
                    return Err(e);
                },
            }
            i = i + 1;
        }
        proof {
            assert(self@.take(self@.len() as int) =~= self@);
        }
        Ok(())
    }

    fn serialize_be(self, writer: &mut W) -> (r: Result<(), W::Error>) {
        <&'a [S] as Serialize<E, W>>::serialize(self, writer)
    }

    fn serialize_le(self, writer: &mut W) -> (r: Result<(), W::Error>) {
        <&'a [S] as Serialize<E, W>>::serialize(self, writer)
    }
}

/// The elements, as for a slice.
impl<'a, E: Endianness, W: ByteSink, S: Copy + Serialize<E, W>> Serialize<E, W> for &'a Vec<S> {
    open spec fn order_free() -> bool {
        true
    }

    open spec fn encoding(&self, big: bool) -> Seq<u8> {
        encodings::<E, W, S>(self@)
    }

    fn serialize(self, writer: &mut W) -> (r: Result<(), W::Error>) {
        E::serialize(self.as_slice(), writer)
    }

    fn serialize_be(self, writer: &mut W) -> (r: Result<(), W::Error>) {
        <&'a Vec<S> as Serialize<E, W>>::serialize(self, writer)
    }

    fn serialize_le(self, writer: &mut W) -> (r: Result<(), W::Error>) {
        <&'a Vec<S> as Serialize<E, W>>::serialize(self, writer)
    }
}

} // verus!
