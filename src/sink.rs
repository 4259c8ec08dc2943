use vstd::prelude::*;

verus! {

/// `after` is `before` with `bytes` appended when `r` is `Ok`, and with some
/// prefix of `bytes` appended when it is `Err`.
pub open spec fn wrote<T>(before: Seq<u8>, after: Seq<u8>, bytes: Seq<u8>, r: Result<(), T>) -> bool {
    match r {
        Ok(_) => after == before + bytes,
        Err(_) => {
            &&& before.len() <= after.len() <= before.len() + bytes.len()
            &&& after == (before + bytes).take(after.len() as int)
        },
    }
}

/// A destination for bytes, owned by the caller and borrowed for each write.
pub trait ByteSink {
    /// The failure that the destination reports.
    type Error;

    /// Everything written to the destination so far.
    ///
    /// Every impl in this crate defines it; one written outside verified
    /// code may leave it at this default, which no proof relies on.
    closed spec fn written(&self) -> Seq<u8> {
        Seq::empty()
    }

    /// Whether writes to the destination always succeed; unless an impl
    /// says so, they may fail.
    closed spec fn infallible() -> bool {
        false
    }

    /// Writes all of `buf`, or reports the destination's failure.
    fn write_all(&mut self, buf: &[u8]) -> (r: Result<(), Self::Error>)
        ensures
            wrote(old(self).written(), final(self).written(), buf@, r),
            Self::infallible() ==> r is Ok,
            buf@.len() == 0 ==> r is Ok,
    ;
}

/// A growable vector is a destination that never fails.
impl ByteSink for Vec<u8> {
    type Error = ();

    open spec fn written(&self) -> Seq<u8> {
        self@
    }

    open spec fn infallible() -> bool {
        true
    }

    fn write_all(&mut self, buf: &[u8]) -> (r: Result<(), ()>) {
        let mut i: usize = 0;
        while i < buf.len()
            invariant
                i <= buf@.len(),
                self@ == old(self)@ + buf@.take(i as int),
            decreases buf@.len() - i,
        {
            self.push(buf[i]);
            i = i + 1;
            proof {
                assert(buf@.take(i as int) == buf@.take(i - 1 as int).push(buf@[i - 1]));
            }
        }
        proof {
            assert(buf@.take(buf@.len() as int) == buf@);
        }
        Ok(())
    }
}

} // verus!
