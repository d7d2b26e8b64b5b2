//! NTS cookies.

use crate::RawBytes;
use vstd::prelude::*;

verus! {

/// An NTS cookie: an opaque token that the server hands out and takes back
/// once. The wrapper keeps cookies apart from other byte strings.
#[derive(Debug, Clone, PartialEq, Eq)]
pub struct NtsCookie(pub RawBytes);

impl View for NtsCookie {
    type V = Seq<u8>;

    open spec fn view(&self) -> Seq<u8> {
        self.0@
    }
}

/// The views of a sequence of cookies, in order.
pub open spec fn cookie_views(cookies: Seq<NtsCookie>) -> Seq<Seq<u8>> {
    cookies.map_values(|c: NtsCookie| c@)
}

impl NtsCookie {
    /// A cookie with the given bytes.
    pub fn new(bytes: Vec<u8>) -> (cookie: NtsCookie)
        ensures
            cookie@ == bytes@,
    {
        NtsCookie(RawBytes(bytes))
    }

    /// The bytes of the cookie.
    pub fn as_bytes(&self) -> (bytes: &[u8])
        ensures
            bytes@ == self@,
    {
        self.0.0.as_slice()
    }
}

} // verus!
