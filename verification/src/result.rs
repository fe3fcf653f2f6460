//! The closed result enumeration returned across the boundary, and the
//! total mapping from engine failure classifications onto it.

use vstd::prelude::*;

verus! {

/// One failure classification of the TLS engine, mirrored one to one.
/// The engine attaches detail (message types, alert descriptions, text) to
/// some classifications; only the classification itself crosses the boundary.
#[derive(Clone, Copy, Debug, PartialEq, Eq, Structural)]
pub enum TlsFailure {
    InappropriateMessage,
    InappropriateHandshakeMessage,
    CorruptMessage,
    CorruptMessagePayload,
    NoCertificatesPresented,
    DecryptError,
    PeerIncompatibleError,
    PeerMisbehavedError,
    AlertReceived,
    WebPkiError,
    InvalidSct,
    General,
    FailedToGetCurrentTime,
    HandshakeNotComplete,
    PeerSentOversizedRecord,
    NoApplicationProtocol,
}

/// Outcome of a boundary operation: success, the two locally detected
/// failures, and one member per engine failure classification.
#[derive(Clone, Copy, Debug, PartialEq, Eq, Structural)]
pub enum RustlsResult {
    /// The operation succeeded.
    Success,
    /// A required handle or pointer argument was null.
    NullParameter,
    /// A local conversion or validation failure, such as a server name
    /// that is not a valid DNS name.
    Io,
    InappropriateMessage,
    InappropriateHandshakeMessage,
    CorruptMessage,
    CorruptMessagePayload,
    NoCertificatesPresented,
    DecryptError,
    PeerIncompatibleError,
    PeerMisbehavedError,
    AlertReceived,
    WebPkiError,
    InvalidSct,
    General,
    FailedToGetCurrentTime,
    HandshakeNotComplete,
    PeerSentOversizedRecord,
    NoApplicationProtocol,
}

/// Engine-originated codes occupy their own range, disjoint from the
/// locally produced codes.
pub const ENGINE_CODE_BASE: u32 = 101;

impl RustlsResult {
    /// The stable numeric code of each member.
    pub closed spec fn spec_code(self) -> u32 {
        match self {
            RustlsResult::Success => 0,
            RustlsResult::NullParameter => 1,
            RustlsResult::Io => 2,
            RustlsResult::InappropriateMessage => 101,
            RustlsResult::InappropriateHandshakeMessage => 102,
            RustlsResult::CorruptMessage => 103,
            RustlsResult::CorruptMessagePayload => 104,
            RustlsResult::NoCertificatesPresented => 105,
            RustlsResult::DecryptError => 106,
            RustlsResult::PeerIncompatibleError => 107,
            RustlsResult::PeerMisbehavedError => 108,
            RustlsResult::AlertReceived => 109,
            RustlsResult::WebPkiError => 110,
            RustlsResult::InvalidSct => 111,
            RustlsResult::General => 112,
            RustlsResult::FailedToGetCurrentTime => 113,
            RustlsResult::HandshakeNotComplete => 114,
            RustlsResult::PeerSentOversizedRecord => 115,
            RustlsResult::NoApplicationProtocol => 116,
        }
    }

    /// The numeric code handed across the boundary.
    pub fn code(&self) -> (c: u32)
        ensures
            c == self.spec_code(),
    {
        match self {
            RustlsResult::Success => 0,
            RustlsResult::NullParameter => 1,
            RustlsResult::Io => 2,
            RustlsResult::InappropriateMessage => 101,
            RustlsResult::InappropriateHandshakeMessage => 102,
            RustlsResult::CorruptMessage => 103,
            RustlsResult::CorruptMessagePayload => 104,
            RustlsResult::NoCertificatesPresented => 105,
            RustlsResult::DecryptError => 106,
            RustlsResult::PeerIncompatibleError => 107,
            RustlsResult::PeerMisbehavedError => 108,
            RustlsResult::AlertReceived => 109,
            RustlsResult::WebPkiError => 110,
            RustlsResult::InvalidSct => 111,
            RustlsResult::General => 112,
            RustlsResult::FailedToGetCurrentTime => 113,
            RustlsResult::HandshakeNotComplete => 114,
            RustlsResult::PeerSentOversizedRecord => 115,
            RustlsResult::NoApplicationProtocol => 116,
        }
    }

    pub fn is_success(&self) -> (r: bool)
        ensures
            r == (*self == RustlsResult::Success),
    {
        match self {
            RustlsResult::Success => true,
            _ => false,
        }
    }
}

/// Where each engine failure classification lands in the result enumeration.
pub open spec fn spec_map_engine_failure(f: TlsFailure) -> RustlsResult {
    match f {
        TlsFailure::InappropriateMessage => RustlsResult::InappropriateMessage,
        TlsFailure::InappropriateHandshakeMessage => RustlsResult::InappropriateHandshakeMessage,
        TlsFailure::CorruptMessage => RustlsResult::CorruptMessage,
        TlsFailure::CorruptMessagePayload => RustlsResult::CorruptMessagePayload,
        TlsFailure::NoCertificatesPresented => RustlsResult::NoCertificatesPresented,
        TlsFailure::DecryptError => RustlsResult::DecryptError,
        TlsFailure::PeerIncompatibleError => RustlsResult::PeerIncompatibleError,
        TlsFailure::PeerMisbehavedError => RustlsResult::PeerMisbehavedError,
        TlsFailure::AlertReceived => RustlsResult::AlertReceived,
        TlsFailure::WebPkiError => RustlsResult::WebPkiError,
        TlsFailure::InvalidSct => RustlsResult::InvalidSct,
        TlsFailure::General => RustlsResult::General,
        TlsFailure::FailedToGetCurrentTime => RustlsResult::FailedToGetCurrentTime,
        TlsFailure::HandshakeNotComplete => RustlsResult::HandshakeNotComplete,
        TlsFailure::PeerSentOversizedRecord => RustlsResult::PeerSentOversizedRecord,
        TlsFailure::NoApplicationProtocol => RustlsResult::NoApplicationProtocol,
    }
}

/// Translate an engine failure classification into its result code member.
/// The match is total over the classification, so no engine failure falls
/// through to a generic code.
pub fn map_engine_failure(f: TlsFailure) -> (r: RustlsResult)
    ensures
        r == spec_map_engine_failure(f),
{
    match f {
        TlsFailure::InappropriateMessage => RustlsResult::InappropriateMessage,
        TlsFailure::InappropriateHandshakeMessage => RustlsResult::InappropriateHandshakeMessage,
        TlsFailure::CorruptMessage => RustlsResult::CorruptMessage,
        TlsFailure::CorruptMessagePayload => RustlsResult::CorruptMessagePayload,
        TlsFailure::NoCertificatesPresented => RustlsResult::NoCertificatesPresented,
        TlsFailure::DecryptError => RustlsResult::DecryptError,
        TlsFailure::PeerIncompatibleError => RustlsResult::PeerIncompatibleError,
        TlsFailure::PeerMisbehavedError => RustlsResult::PeerMisbehavedError,
        TlsFailure::AlertReceived => RustlsResult::AlertReceived,
        TlsFailure::WebPkiError => RustlsResult::WebPkiError,
        TlsFailure::InvalidSct => RustlsResult::InvalidSct,
        TlsFailure::General => RustlsResult::General,
        TlsFailure::FailedToGetCurrentTime => RustlsResult::FailedToGetCurrentTime,
        TlsFailure::HandshakeNotComplete => RustlsResult::HandshakeNotComplete,
        TlsFailure::PeerSentOversizedRecord => RustlsResult::PeerSentOversizedRecord,
        TlsFailure::NoApplicationProtocol => RustlsResult::NoApplicationProtocol,
    }
}

/// The numeric codes identify the members: no two members share a code,
/// and zero is the code of success alone.
pub proof fn lemma_codes_distinct(a: RustlsResult, b: RustlsResult)
    ensures
        a.spec_code() == b.spec_code() ==> a == b,
        a.spec_code() == 0 <==> a == RustlsResult::Success,
{
}

/// Every engine failure classification maps into the engine code range,
/// never onto success or a locally produced code.
pub proof fn lemma_engine_codes_partitioned(f: TlsFailure)
    ensures
        spec_map_engine_failure(f).spec_code() >= ENGINE_CODE_BASE,
{
}

/// Two distinct engine failure classifications are never coerced into one
/// code: the mapping is injective.
pub proof fn lemma_engine_mapping_faithful(f1: TlsFailure, f2: TlsFailure)
    ensures
        spec_map_engine_failure(f1) == spec_map_engine_failure(f2) ==> f1 == f2,
{
}

} // verus!
