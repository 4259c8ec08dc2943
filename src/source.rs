use vstd::prelude::*;

verus! {

/// A reading from `before` that left `after`, with `expected` what decoding
/// `before` gives (the value and how many bytes it takes) and `r` what the
/// reading returned. A value comes back only where `expected` has one, and
/// then it is that value and the bytes it took are gone. A source that fails
/// only for lack of bytes (`reliable`) fails only where `expected` has none.
pub open spec fn read_as<T, X>(
    before: Seq<u8>,
    after: Seq<u8>,
    expected: Option<(T, nat)>,
    r: Result<T, X>,
    reliable: bool,
) -> bool {
    &&& match r {
        Ok(v) => {
            &&& expected is Some
            &&& (expected->0).0 == v
            &&& (expected->0).1 <= before.len()
            &&& after == before.skip((expected->0).1 as int)
        },
        Err(_) => !reliable || expected is None,
    }
}

/// An origin of bytes, owned by the caller and borrowed for each read.
pub trait ByteSource {
    /// The failure that the origin reports, lack of bytes included.
    type Error;

    /// The bytes that the origin has yet to give.
    ///
    /// Every impl in this crate defines it; one written outside verified
    /// code may leave it at this default, which no proof relies on.
    closed spec fn pending(&self) -> Seq<u8> {
        Seq::empty()
    }

    /// Whether the origin fails only when it has too few bytes; unless an
    /// impl says so, it may fail for other reasons too.
    closed spec fn reliable() -> bool {
        false
    }

    /// Reads exactly `n` bytes, or reports the origin's failure.
    fn read_exact(&mut self, n: usize) -> (r: Result<Vec<u8>, Self::Error>)
        ensures
            match r {
                Ok(b) => {
                    &&& n <= old(self).pending().len()
                    &&& b@ == old(self).pending().take(n as int)
                    &&& final(self).pending() == old(self).pending().skip(n as int)
                },
                Err(_) => !Self::reliable() || old(self).pending().len() < n,
            },
    ;
}

/// The failure of a `SliceReader` asked for more bytes than it has left.
#[derive(Debug, Clone, Copy, PartialEq, Eq)]
pub struct UnexpectedEnd;

/// Reads the bytes of a slice from the front.
pub struct SliceReader<'a> {
    bytes: &'a [u8],
    pos: usize,
}

impl<'a> SliceReader<'a> {
    /// A reader at the first byte of `bytes`.
    pub fn new(bytes: &'a [u8]) -> (r: SliceReader<'a>)
        ensures
            r.pending() == bytes@,
    {
        proof {
            assert(bytes@.skip(0) =~= bytes@);
        }
        SliceReader { bytes, pos: 0 }
    }

    /// The reader never stands past the end of its slice.
    #[verifier::type_invariant]
    closed spec fn inv(&self) -> bool {
        self.pos <= self.bytes@.len()
    }
}

impl<'a> ByteSource for SliceReader<'a> {
    type Error = UnexpectedEnd;

    closed spec fn pending(&self) -> Seq<u8> {
        self.bytes@.skip(self.pos as int)
    }

    open spec fn reliable() -> bool {
        true
    }

    fn read_exact(&mut self, n: usize) -> (r: Result<Vec<u8>, UnexpectedEnd>) {
        proof {
            use_type_invariant(&*self);
        }
        if n > self.bytes.len() - self.pos {
            return Err(UnexpectedEnd);
        }
        let end: usize = self.pos + n;
        let mut b: Vec<u8> = Vec::new();
        let mut i: usize = 0;
        while i < n
            invariant
                self.pos + n == end,
                end <= self.bytes@.len(),
                i <= n,
                b@ == self.bytes@.subrange(self.pos as int, self.pos + i),
            decreases n - i,
        {
            b.push(self.bytes[self.pos + i]);
            i = i + 1;
            proof {
                assert(b@ =~= self.bytes@.subrange(self.pos as int, self.pos + i));
            }
        }
        proof {
            assert(b@ =~= old(self).pending().take(n as int));
        }
        self.pos = self.pos + n;
        proof {
            assert(self.pending() =~= old(self).pending().skip(n as int));
        }
        Ok(b)
    }
}

} // verus!
