//! The shared port cell: a write-once slot for the sidecar's reported port.
//!
//! The cell starts absent and is set at most once, by the first successfully
//! parsed handshake line. Once present it never changes for the lifetime of
//! the application instance, because the backend, once bound to a port, does
//! not rebind. Readers see either "absent" (backend still starting, or the
//! handshake never arrived) or the one discovered port.

use vstd::prelude::*;

verus! {

/// A single slot holding an optional port number. The caller that shares it
/// across tasks wraps it in its own mutual-exclusion guard; the cell itself
/// carries the write-once rule.
pub struct PortCell {
    port: Option<u16>,
}

impl View for PortCell {
    type V = Option<u16>;

    closed spec fn view(&self) -> Option<u16> {
        self.port
    }
}

impl PortCell {
    /// A fresh cell, absent until the handshake arrives.
    pub fn new() -> (c: PortCell)
        ensures
            c@ is None,
    {
        PortCell { port: None }
    }

    /// The synchronous port query: a single read, no blocking, no mutation.
    /// Returns absent while the backend is still starting (or forever, if the
    /// handshake never arrives).
    pub fn get_sidecar_port(&self) -> (r: Option<u16>)
        ensures
            r == self@,
    {
        self.port
    }

    /// Record a discovered port. The first writer wins: a cell that already
    /// holds a port ignores every later value.
    pub fn record(&mut self, p: u16)
        ensures
            old(self)@ is None ==> final(self)@ == Some(p),
            old(self)@ is Some ==> final(self)@ == old(self)@,
    {
        if self.port.is_none() {
            self.port = Some(p);
        }
    }
}

} // verus!
