//! Supplemental Enhancement Information (SEI) encoding

use crate::rbsp::RbspData;
use vstd::prelude::*;

verus! {

/// User data unregistered [SupplementalEnhancementInformation] message
#[derive(Debug, PartialEq, Eq)]
pub struct UserDataUnregistered {
    pub uuid: [u8; 16],
    pub payload: Vec<u8>,
}

/// Supplemental Enhancement Information
#[derive(Debug, PartialEq, Eq)]
#[non_exhaustive]
pub enum SupplementalEnhancementInformation {
    /// User data unregistered message
    UserDataUnregistered(UserDataUnregistered),
}

/// The bytes `ff` that stand before the last byte of a size: one for each
/// 255 that can be taken off it. A reader adds 255 for every `ff` and goes
/// on, so the last byte is always below `ff`.
pub open spec fn ff_count(size: nat) -> nat
    decreases size,
{
    if size < 255 {
        0
    } else {
        1 + ff_count((size - 255) as nat)
    }
}

/// A size is 255 for each of its bytes `ff`, and what its last byte holds;
/// and the last byte is below `ff`, so that a reader stops at it.
pub proof fn lemma_ff_count(size: nat)
    ensures
        ff_count(size) == size / 255,
        0 <= size - 255 * ff_count(size) < 255,
    decreases size,
{
    if size >= 255 {
        lemma_ff_count((size - 255) as nat);
    }
}

/// The payload of an SEI NAL unit with one message: the type of the
/// message, its size as so many bytes `ff` and a last byte below `ff` for
/// what is left, the message, and a stop bit in a byte of its own.
pub open spec fn sei_rbsp(payload_type: u8, payload: Seq<u8>) -> Seq<u8> {
    seq![payload_type] + Seq::new(ff_count(payload.len()), |i: int| 0xffu8) + seq![
        (payload.len() - 255 * ff_count(payload.len())) as u8,
    ] + payload + seq![0x80u8]
}

impl UserDataUnregistered {
    /// A message of the bytes given, under the UUID given.
    pub fn new(uuid: [u8; 16], payload: Vec<u8>) -> (message: Self)
        ensures
            message.uuid == uuid,
            message.payload == payload,
    {
        Self { uuid, payload }
    }

    /// The message as it stands in the stream: the UUID, then the bytes.
    pub fn to_sei_payload(&self) -> (bytes: Vec<u8>)
        ensures
            bytes@ == self.uuid@ + self.payload@,
    {
        let mut result: Vec<u8> = Vec::new();
        result.extend_from_slice(self.uuid.as_slice());
        result.extend_from_slice(self.payload.as_slice());
        result
    }
}

impl SupplementalEnhancementInformation {
    /// The message as it stands in the stream.
    pub open spec fn message(&self) -> Seq<u8> {
        match self {
            SupplementalEnhancementInformation::UserDataUnregistered(udr) => udr.uuid@
                + udr.payload@,
        }
    }

    /// Encode into raw byte sequence payload
    pub fn to_rbsp(&self) -> (rbsp: RbspData)
        ensures
            rbsp@ == sei_rbsp(5, self.message()),
    {
        let (payload_type, payload): (u8, Vec<u8>) = match &self {
            Self::UserDataUnregistered(udr) => (5u8, udr.to_sei_payload()),
        };
        let ghost size: nat = payload@.len();
        let mut payload_size: usize = payload.len();
        let mut num_ff_bytes: usize = 0;
        while payload_size >= 255
            invariant
                payload_size <= size,
                num_ff_bytes + ff_count(payload_size as nat) == ff_count(size),
                payload_size + 255 * num_ff_bytes == size,
                size <= usize::MAX,
            decreases payload_size,
        {
            num_ff_bytes += 1;
            payload_size -= 0xff;
        }
        let mut result: Vec<u8> = vec![0xffu8; num_ff_bytes + 2];
        let size_idx: usize = result.len() - 1;
        result[0] = payload_type;
        result[size_idx] = payload_size as u8;
        result.extend_from_slice(payload.as_slice());
        // rbsp_trailing_bits
        result.push(0x80);
        RbspData { data: result }
    }
}

} // verus!
