//! The notifications that `enl listen` reports (ECHONET Lite INF / INFC).

use vstd::prelude::*;

verus! {

/// One notification.
#[derive(Debug)]
pub struct Event {
    /// The sender's IP address.
    pub ip: String,
    /// The sending object's EOJ (6 hex digits, e.g. "013001").
    pub seoj: String,
    pub properties: Vec<Prop>,
}

/// One property of a notification.
#[derive(Debug)]
pub struct Prop {
    /// The EPC (2 hex digits, upper case, e.g. "80").
    pub epc: String,
    /// The EDT as raw hex (e.g. "30").
    pub edt_hex: String,
}

} // verus!
