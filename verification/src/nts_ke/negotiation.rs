//! Whether an answer confirms what was asked for, and the contexts that
//! bind the exported keys to it.

use super::response::ResponseView;
use super::{AEAD_AES_SIV_CMAC_256, PROTOCOL_NTPV4};
use crate::nts::NtsCookie;
use crate::record::be16;
use vstd::prelude::*;

verus! {

/// The bytes that bind an exported key to what was negotiated: the next
/// protocol, the AEAD algorithm, and the direction in the last byte.
pub open spec fn context_bytes(protocol: u16, aead: u16, direction: u8) -> Seq<u8> {
    be16(protocol as int) + be16(aead as int) + seq![direction]
}

/// The last context byte of the key from client to server.
pub const DIRECTION_C2S: u8 = 0;

/// The last context byte of the key from server to client.
pub const DIRECTION_S2C: u8 = 1;

/// The context under which one of the two keys is exported.
pub fn key_context(protocol: u16, aead: u16, direction: u8) -> (context: [u8; 5])
    ensures
        context@ == context_bytes(protocol, aead, direction),
{
    let context: [u8; 5] = [
        (protocol / 256) as u8,
        (protocol % 256) as u8,
        (aead / 256) as u8,
        (aead % 256) as u8,
        direction,
    ];
    assert(context@ =~= context_bytes(protocol, aead, direction));
    context
}

/// Two contexts are the same only where protocol, algorithm and direction
/// are: no two keys of different purpose share a context.
pub proof fn lemma_context_binds(
    protocol: u16,
    aead: u16,
    direction: u8,
    other_protocol: u16,
    other_aead: u16,
    other_direction: u8,
)
    requires
        context_bytes(protocol, aead, direction) == context_bytes(
            other_protocol,
            other_aead,
            other_direction,
        ),
    ensures
        protocol == other_protocol,
        aead == other_aead,
        direction == other_direction,
{
    let a = context_bytes(protocol, aead, direction);
    let b = context_bytes(other_protocol, other_aead, other_direction);
    assert(a[0] == b[0] && a[1] == b[1] && a[2] == b[2] && a[3] == b[3] && a[4] == b[4]);
    assert(a[4] == direction && b[4] == other_direction);
    assert(a[0] == (protocol as int / 256) as u8 && a[1] == (protocol as int % 256) as u8);
    assert(b[0] == (other_protocol as int / 256) as u8 && b[1] == (other_protocol as int % 256) as u8);
    assert(a[2] == (aead as int / 256) as u8 && a[3] == (aead as int % 256) as u8);
    assert(b[2] == (other_aead as int / 256) as u8 && b[3] == (other_aead as int % 256) as u8);
}

/// The ways in which a well-formed answer fails to confirm the default
/// request.
#[derive(Debug, Clone, Copy, PartialEq, Eq, Structural)]
pub enum Mismatch {
    /// No AEAD algorithm was confirmed, or more than one.
    NotOneAead,
    /// The confirmed AEAD algorithm is not the one asked for.
    OtherAead,
    /// No next protocol was confirmed, or more than one.
    NotOneProtocol,
    /// The confirmed next protocol is not the one asked for.
    OtherProtocol,
}

impl Mismatch {
    /// The report of this mismatch.
    pub open spec fn message(self) -> Seq<char> {
        match self {
            Mismatch::NotOneAead => "KE did not reply with exactly one AEAD"@,
            Mismatch::OtherAead => "KE replied with an aead we did not ask for"@,
            Mismatch::NotOneProtocol => "KE did not reply with exactly one next_protocol"@,
            Mismatch::OtherProtocol => "KE replied with an protocol we did not ask for"@,
        }
    }
}

impl ResponseView {
    /// Whether the answer confirms the default request: exactly the AEAD
    /// algorithm and exactly the next protocol that were asked for. The
    /// algorithm is looked at first.
    pub open spec fn confirmation(self) -> Result<(), Mismatch> {
        if !(self.aead matches Some(ids) && ids.len() == 1) {
            Err(Mismatch::NotOneAead)
        } else if self.aead->0[0] != AEAD_AES_SIV_CMAC_256 {
            Err(Mismatch::OtherAead)
        } else if !(self.next_protocol matches Some(ids) && ids.len() == 1) {
            Err(Mismatch::NotOneProtocol)
        } else if self.next_protocol->0[0] != PROTOCOL_NTPV4 {
            Err(Mismatch::OtherProtocol)
        } else {
            Ok(())
        }
    }
}

/// What a confirmed default request comes to: the cookies, the name and port
/// of the NTP server to resolve, and the contexts under which the two keys
/// are exported from the TLS session.
#[derive(Debug, Clone, PartialEq, Eq)]
pub struct Negotiated {
    pub cookies: Vec<NtsCookie>,
    pub udp_host: String,
    pub udp_port: u16,
    pub c2s_context: [u8; 5],
    pub s2c_context: [u8; 5],
}

} // verus!
