use vstd::prelude::*;

verus! {

/// A destination for bytes. A write either takes every byte given, in order, or
/// fails, in which case nothing is known of how many bytes it kept.
pub trait Sink {
    type Error;

    /// Every byte that this sink has taken so far, in order.
    spec fn bytes(&self) -> Seq<u8>;

    /// Whether this sink takes every write without failing.
    spec fn infallible(&self) -> bool;

    fn write_all(&mut self, data: &[u8]) -> (r: Result<(), Self::Error>)
        ensures
            r is Ok ==> final(self).bytes() == old(self).bytes() + data@,
            old(self).infallible() ==> r is Ok,
            final(self).infallible() == old(self).infallible(),
    ;
}

/// A growable buffer in memory, lent to the writer; it never refuses bytes.
impl<'a> Sink for &'a mut Vec<u8> {
    type Error = core::convert::Infallible;

    open spec fn bytes(&self) -> Seq<u8> {
        (**self)@
    }

    open spec fn infallible(&self) -> bool {
        true
    }

    fn write_all(&mut self, data: &[u8]) -> (r: Result<(), Self::Error>)
        ensures
            r is Ok,
            (**final(self))@ == (**old(self))@ + data@,
    {
        let mut i: usize = 0;
        while i < data.len()
            invariant
                i <= data@.len(),
                (**self)@ == (**old(self))@ + data@.subrange(0, i as int),
            decreases data@.len() - i,
        {
            (**self).push(data[i]);
            i = i + 1;
            assert(data@.subrange(0, i as int) =~= data@.subrange(0, i - 1).push(data@[i - 1]));
        }
        assert(data@.subrange(0, i as int) =~= data@);
        Ok(())
    }
}

} // verus!
