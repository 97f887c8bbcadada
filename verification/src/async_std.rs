use vstd::prelude::*;

verus! {

/// A stream of another runtime, wrapped so that a driver can give it the
/// read and write capabilities that a session's driver expects.
pub struct AsyncStdWrapped<T> {
    inner: T,
}

impl<T> View for AsyncStdWrapped<T> {
    type V = T;

    closed spec fn view(&self) -> T {
        self.inner
    }
}

impl<T> AsyncStdWrapped<T> {
    /// Wraps `inner`.
    pub fn new(inner: T) -> (wrapped: Self)
        ensures
            wrapped@ == inner,
    {
        Self { inner }
    }

    /// The wrapped stream, for the driver to poll.
    pub fn get_mut(&mut self) -> (inner: &mut T)
        ensures
            *inner == old(self)@,
            final(self)@ == *final(inner),
    {
        &mut self.inner
    }

    /// Unwraps the stream.
    pub fn into_inner(self) -> (inner: T)
        ensures
            inner == self@,
    {
        self.inner
    }
}

} // verus!
