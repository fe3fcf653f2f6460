//! The boundary to the external TLS engine. Every item here is trusted:
//! its contract states what the engine's own source shows, and nothing in
//! this crate checks it further. All the logic around these calls is
//! verified against these contracts alone.

use vstd::prelude::*;
use std::io::{Read, Write};
use std::sync::Arc;
use crate::result::TlsFailure;
use rustls::TLSError as TlsErr;

verus! {

#[verifier::external_type_specification]
#[verifier::external_body]
pub struct ExClientConfig(rustls::ClientConfig);

#[verifier::external_type_specification]
#[verifier::external_body]
pub struct ExClientSession(rustls::ClientSession);

#[verifier::external_type_specification]
#[verifier::external_body]
pub struct ExTlsError(rustls::TLSError);

#[verifier::external_type_specification]
#[verifier::external_body]
pub struct ExDnsName(webpki::DNSName);

/// Whether a string is a syntactically valid DNS name, exactly as the
/// external validator decides it. The decision depends on the characters
/// alone.
pub uninterp spec fn is_valid_dns_name(s: Seq<char>) -> bool;

/// Relies on env_logger::try_init for the one-time process-wide diagnostic
/// logging initialization; a repeated call returns an error, which is
/// dropped, so the call is idempotent.
#[verifier::external_body]
pub(crate) fn init_diagnostic_logging() {
    let _ = env_logger::try_init();
}

/// Relies on rustls::ClientConfig::new and
/// RootCertStore::add_server_trust_anchors with
/// webpki_roots::TLS_SERVER_ROOTS: builds a client configuration
/// pre-populated with the default trust-anchor set.
#[verifier::external_body]
pub(crate) fn new_default_config() -> Arc<rustls::ClientConfig> {
    let mut config = rustls::ClientConfig::new();
    config
        .root_store
        .add_server_trust_anchors(&webpki_roots::TLS_SERVER_ROOTS);
    Arc::new(config)
}

/// Relies on webpki::DNSNameRef::try_from_ascii_str, which accepts exactly
/// the syntactically valid DNS names, and on DNSNameRef::to_owned, which
/// keeps the same name.
#[verifier::external_body]
pub(crate) fn parse_dns_name(hostname: &str) -> (r: Option<webpki::DNSName>)
    ensures
        r is Some <==> is_valid_dns_name(hostname@),
{
    match webpki::DNSNameRef::try_from_ascii_str(hostname) {
        Ok(name_ref) => Some(name_ref.to_owned()),
        Err(_) => None,
    }
}

/// Relies on rustls::ClientSession::new: starts a client conversation
/// bound to the given configuration and server name.
#[verifier::external_body]
pub(crate) fn new_client_session(
    config: &Arc<rustls::ClientConfig>,
    name: &webpki::DNSName,
) -> rustls::ClientSession {
    rustls::ClientSession::new(config, name.as_ref())
}

/// Relies on rustls::Session::wants_read: reports whether the engine needs
/// more ciphertext to make progress; reads nothing else.
#[verifier::external_body]
pub(crate) fn engine_wants_read(sess: &rustls::ClientSession) -> bool {
    rustls::Session::wants_read(sess)
}

/// Relies on rustls::Session::wants_write: reports whether the engine has
/// ciphertext queued for the transport; reads nothing else.
#[verifier::external_body]
pub(crate) fn engine_wants_write(sess: &rustls::ClientSession) -> bool {
    rustls::Session::wants_write(sess)
}

/// Relies on rustls::Session::is_handshaking.
#[verifier::external_body]
pub(crate) fn engine_is_handshaking(sess: &rustls::ClientSession) -> bool {
    rustls::Session::is_handshaking(sess)
}

/// Relies on rustls::Session::process_new_packets: consumes previously fed
/// ciphertext, advances the handshake and record state, and reports its
/// own failure classification on error.
#[verifier::external_body]
pub(crate) fn engine_process(
    sess: &mut rustls::ClientSession,
) -> Result<(), rustls::TLSError> {
    rustls::Session::process_new_packets(sess)
}

/// Tells the engine's failure classifications apart, one arm per
/// classification; the detail attached to some of them is dropped.
#[verifier::external_body]
pub(crate) fn classify_failure(e: &TlsErr) -> TlsFailure {
    match e {
        TlsErr::InappropriateMessage { .. } => TlsFailure::InappropriateMessage,
        TlsErr::InappropriateHandshakeMessage { .. } => TlsFailure::InappropriateHandshakeMessage,
        TlsErr::CorruptMessage => TlsFailure::CorruptMessage, TlsErr::CorruptMessagePayload(_) => TlsFailure::CorruptMessagePayload,
        TlsErr::NoCertificatesPresented => TlsFailure::NoCertificatesPresented, TlsErr::DecryptError => TlsFailure::DecryptError,
        TlsErr::PeerIncompatibleError(_) => TlsFailure::PeerIncompatibleError,
        TlsErr::PeerMisbehavedError(_) => TlsFailure::PeerMisbehavedError,
        TlsErr::AlertReceived(_) => TlsFailure::AlertReceived, TlsErr::WebPKIError(_) => TlsFailure::WebPkiError,
        TlsErr::InvalidSCT(_) => TlsFailure::InvalidSct, TlsErr::General(_) => TlsFailure::General,
        TlsErr::FailedToGetCurrentTime => TlsFailure::FailedToGetCurrentTime,
        TlsErr::HandshakeNotComplete => TlsFailure::HandshakeNotComplete,
        TlsErr::PeerSentOversizedRecord => TlsFailure::PeerSentOversizedRecord,
        TlsErr::NoApplicationProtocol => TlsFailure::NoApplicationProtocol,
    }
}

/// Relies on the io::Write impl for rustls::ClientSession: `write` queues
/// the plaintext for encryption and always returns Ok(n) with n no larger
/// than the buffer, possibly smaller if internal buffer limits apply.
#[verifier::external_body]
pub(crate) fn engine_write_plaintext(
    sess: &mut rustls::ClientSession,
    data: &[u8],
) -> (n: usize)
    ensures
        n <= data@.len(),
{
    sess.write(data).unwrap_or(0)
}

/// What the engine reported when asked for decrypted plaintext.
#[derive(Clone, Copy, Debug, PartialEq, Eq, Structural)]
pub enum ReadOutcome {
    /// This many bytes were copied out; zero means no plaintext is ready.
    Data(usize),
    /// The peer signalled graceful closure; no plaintext remains.
    Closed,
    /// Any other engine failure.
    Failed,
}

/// Relies on the io::Read impl for rustls::ClientSession: `read` copies
/// already-decrypted plaintext into a prefix of the buffer and returns
/// the count, leaving every byte at and beyond it untouched; its one
/// error is the clean peer closure, of kind ConnectionAborted with text
/// naming CloseNotify, raised only when no plaintext remains, so it
/// writes nothing. No other failure exists, so the Failed outcome never
/// comes back; the arm stands for totality over the io::Result alone.
/// The buffer keeps its length whatever happens.
#[verifier::external_body]
pub(crate) fn engine_read_plaintext(
    sess: &mut rustls::ClientSession,
    buf: &mut Vec<u8>,
) -> (r: ReadOutcome)
    ensures
        final(buf)@.len() == old(buf)@.len(),
        !(r is Failed),
        r matches ReadOutcome::Data(n) ==> n <= old(buf)@.len() && forall|m: int|
            n <= m < old(buf)@.len() ==> final(buf)@[m] == old(buf)@[m],
        r is Closed ==> final(buf)@ == old(buf)@,
{
    match sess.read(buf.as_mut_slice()) {
        Ok(n) => ReadOutcome::Data(n),
        Err(e) if e.kind() == std::io::ErrorKind::ConnectionAborted
            && e.to_string().contains("CloseNotify") => ReadOutcome::Closed,
        Err(_) => ReadOutcome::Failed,
    }
}

/// Relies on rustls::Session::read_tls reading from an in-memory cursor:
/// it consumes at most the bytes the cursor holds and returns the count,
/// possibly zero when the engine's own buffer is full. Its only error
/// source is the reader, and an in-memory cursor never fails.
#[verifier::external_body]
pub(crate) fn engine_read_tls(
    sess: &mut rustls::ClientSession,
    input: &[u8],
) -> (n: usize)
    ensures
        n <= input@.len(),
{
    let mut cursor = std::io::Cursor::new(input);
    rustls::Session::read_tls(sess, &mut cursor).unwrap_or(0)
}

/// Relies on rustls::Session::write_tls writing into a byte slice, whose
/// io::Write impl accepts at most the slice's length and never fails; the
/// vector keeps its length.
#[verifier::external_body]
pub(crate) fn engine_write_tls(
    sess: &mut rustls::ClientSession,
    out: &mut Vec<u8>,
) -> (n: usize)
    ensures
        n <= old(out)@.len(),
        final(out)@.len() == old(out)@.len(),
{
    let mut target: &mut [u8] = out.as_mut_slice();
    rustls::Session::write_tls(sess, &mut target).unwrap_or(0)
}

} // verus!
