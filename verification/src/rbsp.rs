//! Raw byte sequence payloads.

use vstd::prelude::*;

verus! {

/// Raw byte sequence payload (RBSP) data: what a NAL unit carries, before
/// emulation prevention bytes are put in.
pub struct RbspData {
    /// The payload bytes.
    pub data: Vec<u8>,
}

impl View for RbspData {
    type V = Seq<u8>;

    open spec fn view(&self) -> Seq<u8> {
        self.data@
    }
}

impl Clone for RbspData {
    fn clone(&self) -> (copy: Self)
        ensures
            copy@ == self@,
    {
        Self { data: self.data.clone() }
    }
}

impl RbspData {
    /// A payload of the bytes given.
    pub fn new(data: Vec<u8>) -> (rbsp: Self)
        ensures
            rbsp@ == data@,
    {
        Self { data }
    }
}

} // verus!
