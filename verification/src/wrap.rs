//! A layered codec over a bidirectional byte stream: a backend plus a
//! transformer that wraps and unwraps payloads as a matched pair.
//!
//! The adapter is oblivious to the AGW protocol; it composes with any
//! read/write stream, including one built on a virtual circuit.  The
//! byte-stream plumbing around it lives outside the engine.

use vstd::prelude::*;

use crate::err::AgwError;

verus! {

/// A matched pair of payload transforms (for example sign and verify).
/// Implementations belong to the library's users; the pair must invert
/// on the peer whatever it applies here.
pub trait Wrapper {
    fn wrap(&self, input: &[u8]) -> Result<Vec<u8>, AgwError>;

    fn unwrap(&self, input: &[u8]) -> Result<Vec<u8>, AgwError>;
}

/// A stream backend paired with its transformer.
pub struct Wrap<T, W: Wrapper> {
    backend: T,
    wrapper: W,
}

impl<T, W: Wrapper> Wrap<T, W> {
    pub closed spec fn spec_backend(&self) -> T {
        self.backend
    }

    pub closed spec fn spec_wrapper(&self) -> W {
        self.wrapper
    }

    pub fn new(backend: T, wrapper: W) -> (r: Self)
        ensures
            r.spec_backend() == backend,
            r.spec_wrapper() == wrapper,
    {
        Wrap { backend, wrapper }
    }

    pub fn into_inner(self) -> (r: (T, W))
        ensures
            r.0 == self.spec_backend(),
            r.1 == self.spec_wrapper(),
    {
        (self.backend, self.wrapper)
    }
}

} // verus!
