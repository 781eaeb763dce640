//! The error taxonomy of the gateway.

use vstd::prelude::*;

verus! {

/// Why a call failed.
///
/// - `MalformedInput`: the request holds content the vendor cannot
///   represent; `urls` lists every offending network image URL, in order.
/// - `MissingCredential`: configuration lacks a required credential.
/// - `TransportError`: the network or HTTP layer failed.
/// - `UpstreamError`: the vendor reported an application-level error.
/// - `InvalidResponse`: neither text nor tool calls could be extracted.
/// - `MalformedToolArguments`: assembled tool-call arguments are not JSON.
/// - `UnknownModel`, `UnknownProvider`, `CapabilityUnavailable`: resolution
///   failed.
/// - `InputTooLong`: the input exceeds the model's token ceiling.
#[derive(Debug, Clone, PartialEq)]
pub enum Error {
    MalformedInput { urls: Vec<String> },
    MissingCredential { name: String },
    TransportError { status: Option<u16>, message: String },
    UpstreamError { code: Option<String>, message: String },
    InvalidResponse,
    MalformedToolArguments { name: String },
    UnknownModel { id: String },
    UnknownProvider { name: String },
    CapabilityUnavailable,
    InputTooLong { limit: usize },
}

} // verus!
