//! Buffered wrappers around the transmit and receive halves of a server's wire.
//!
//! They hold the wrapped half and hand every frame and every error through
//! to it as it is.

use vstd::prelude::*;

verus! {

/// Transmit half of a server's wire that hands every frame to the half it wraps.
pub struct BufferedTx<T> {
    tx: T,
}

impl<T> BufferedTx<T> {
    /// The wrapped transmit half.
    pub closed spec fn spec_inner(&self) -> T {
        self.tx
    }

    pub fn new(tx: T) -> (s: Self)
        ensures
            s.spec_inner() == tx,
    {
        BufferedTx { tx }
    }

    pub fn inner(&self) -> (r: &T)
        ensures
            *r == self.spec_inner(),
    {
        &self.tx
    }
}

/// Receive half of a server's wire that hands on every frame and error of the half it wraps.
pub struct BufferedRx<T> {
    rx: T,
}

impl<T> BufferedRx<T> {
    /// The wrapped receive half.
    pub closed spec fn spec_inner(&self) -> T {
        self.rx
    }

    pub fn new(rx: T) -> (s: Self)
        ensures
            s.spec_inner() == rx,
    {
        BufferedRx { rx }
    }

    pub fn inner_mut(&mut self) -> (r: &mut T)
        ensures
            *r == old(self).spec_inner(),
            final(self).spec_inner() == *final(r),
    {
        &mut self.rx
    }
}

} // verus!
