//! A duplex channel made of a readable half and a writable half.
use vstd::prelude::*;

verus! {

/// Combines a readable channel and a writable channel into one duplex
/// channel, for transports that need a single channel for both directions.
pub struct ReadWrite<R, W> {
    r: R,
    w: W,
}

impl<R, W> ReadWrite<R, W> {
    /// The readable half.
    pub closed spec fn spec_readable(&self) -> R {
        self.r
    }

    /// The writable half.
    pub closed spec fn spec_writable(&self) -> W {
        self.w
    }

    /// Channel that reads from `r` and writes to `w`.
    pub fn new(r: R, w: W) -> (s: Self)
        ensures
            s.spec_readable() == r,
            s.spec_writable() == w,
    {
        ReadWrite { r, w }
    }

    /// Get the underlying read channel.
    pub fn readable(&self) -> (r: &R)
        ensures
            *r == self.spec_readable(),
    {
        &self.r
    }

    /// Get the underlying write channel.
    pub fn writable(&self) -> (r: &W)
        ensures
            *r == self.spec_writable(),
    {
        &self.w
    }

    /// The read channel, for reading.
    pub fn readable_mut(&mut self) -> (r: &mut R)
        ensures
            *r == old(self).spec_readable(),
            final(self).spec_readable() == *final(r),
            final(self).spec_writable() == old(self).spec_writable(),
    {
        &mut self.r
    }

    /// The write channel, for writing.
    pub fn writable_mut(&mut self) -> (r: &mut W)
        ensures
            *r == old(self).spec_writable(),
            final(self).spec_writable() == *final(r),
            final(self).spec_readable() == old(self).spec_readable(),
    {
        &mut self.w
    }
}

} // verus!
