//! The key establishment exchange: what is asked, what an answer must look
//! like, and what a confirmed answer comes to.

pub mod connection;
pub mod negotiation;
pub mod request;
pub mod response;

pub use connection::{concluded, Ending, NtsKeConnection};
pub use negotiation::{
    context_bytes, key_context, Mismatch, Negotiated, DIRECTION_C2S, DIRECTION_S2C,
};
pub use request::{option_string_view, Request, RequestView};
pub use response::{
    acceptable, allowed, cookies_among, debug_text, error_codes, first_filling, holds, last_text,
    once_only, option_ids_view, validate, warning_codes, well_formed, Response, ResponseView,
    Violation,
};

use vstd::prelude::*;

verus! {

/// The next protocol id of NTP version 4 over UDP.
pub const PROTOCOL_NTPV4: u16 = 0;

/// The AEAD algorithm id of AES-SIV-CMAC-256, which every party must offer.
pub const AEAD_AES_SIV_CMAC_256: u16 = 15;

/// The UDP port of NTP, taken where the answer names none.
pub const NTP_PORT: u16 = 123;

/// The only application protocol offered in the TLS handshake.
pub const ALPN_PROTOCOL: &'static str = "ntske/1";

/// The label under which keys are exported from the TLS session.
pub const EXPORTER_LABEL: &'static str = "EXPORTER-network-time-security";

/// Length in bytes of each exported key.
pub const KEY_LENGTH: usize = 32;

} // verus!
