//! Messages of the control protocol. Their JSON form belongs to the program
//! around the library; here they are plain values.

use vstd::prelude::*;

verus! {

/// One message of the control protocol.
#[derive(Debug, Clone)]
pub enum Message {
    Hello { version: u32, fingerprint: String },
    Configure { tests: Vec<String>, port_ranges: Vec<PortRangeSpec>, bidir: bool },
    Ack { ok: bool, message: Option<String> },
    Test { id: u32, protocol: String, transport: String, port: u16, direction: String },
    Report {
        id: u32,
        sent: Option<TransferReport>,
        received: Option<TransferReport>,
        error: Option<String>,
    },
    Done,
    Bye { summary: TestSummary },
}

/// A range of ports to probe over one transport, both ends included.
#[derive(Debug, Clone)]
pub struct PortRangeSpec {
    pub transport: String,
    pub start: u16,
    pub end: u16,
}

impl View for PortRangeSpec {
    type V = (Seq<char>, u16, u16);

    open spec fn view(&self) -> (Seq<char>, u16, u16) {
        (self.transport@, self.start, self.end)
    }
}

impl PortRangeSpec {
    /// A copy of this range.
    pub fn duplicate(&self) -> (r: PortRangeSpec)
        ensures
            r@ == self@,
    {
        PortRangeSpec { transport: self.transport.clone(), start: self.start, end: self.end }
    }
}

/// How many bytes went one way, and their digest.
#[derive(Debug, Clone)]
pub struct TransferReport {
    pub bytes: u64,
    pub sha256: String,
}

/// Counts of passed, failed and errored probes.
#[derive(Debug, Clone, Copy, PartialEq, Eq, Structural)]
pub struct TestSummary {
    pub passed: u32,
    pub failed: u32,
    pub errors: u32,
}

} // verus!
