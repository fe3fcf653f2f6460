use crustls::{
    map_engine_failure, FreeOutcome, Registry, RustlsResult, TlsFailure, rustls_client_config,
    rustls_client_session,
};

const NULL_CONFIG: rustls_client_config = rustls_client_config { id: 0 };
const NULL_SESSION: rustls_client_session = rustls_client_session { id: 0 };

#[test]
fn null_handles_get_safe_sentinels() {
    let mut reg = Registry::new();
    assert_eq!(reg.rustls_client_config_free(NULL_CONFIG), FreeOutcome::NullHandle);
    assert_eq!(reg.rustls_client_session_free(NULL_SESSION), FreeOutcome::NullHandle);
    assert!(!reg.rustls_client_session_wants_read(NULL_SESSION));
    assert!(!reg.rustls_client_session_wants_write(NULL_SESSION));
    assert!(!reg.rustls_client_session_is_handshaking(NULL_SESSION));
    assert_eq!(
        reg.rustls_client_session_process_new_packets(NULL_SESSION),
        RustlsResult::NullParameter
    );
    let mut out_n: usize = 7;
    assert_eq!(
        reg.rustls_client_session_write(NULL_SESSION, b"abc", &mut out_n),
        RustlsResult::NullParameter
    );
    assert_eq!(out_n, 7);
    let mut buf = vec![0u8; 8];
    assert_eq!(
        reg.rustls_client_session_read(NULL_SESSION, &mut buf, &mut out_n),
        RustlsResult::NullParameter
    );
    assert_eq!(out_n, 7);
    assert_eq!(
        reg.rustls_client_session_read_tls(NULL_SESSION, b"abc", &mut out_n),
        RustlsResult::NullParameter
    );
    assert_eq!(
        reg.rustls_client_session_write_tls(NULL_SESSION, &mut buf, &mut out_n),
        RustlsResult::NullParameter
    );
    let mut out_session = NULL_SESSION;
    assert_eq!(
        reg.rustls_client_session_new(NULL_CONFIG, "example.com", &mut out_session),
        RustlsResult::NullParameter
    );
    assert_eq!(out_session.id, 0);
}

#[test]
fn config_free_detects_double_free() {
    let mut reg = Registry::new();
    let cfg = reg.rustls_client_config_new();
    assert_eq!(cfg.id, 1);
    assert_eq!(reg.rustls_client_config_free(cfg), FreeOutcome::Freed);
    assert_eq!(reg.rustls_client_config_free(cfg), FreeOutcome::Misuse);
}

#[test]
fn invalid_server_name_is_rejected_with_io() {
    let mut reg = Registry::new();
    let cfg = reg.rustls_client_config_new();
    let mut out_session = rustls_client_session { id: 99 };
    let r = reg.rustls_client_session_new(cfg, "not a valid name", &mut out_session);
    assert_eq!(r, RustlsResult::Io);
    assert_eq!(r.code(), 2);
    assert_eq!(out_session.id, 99);
    let r = reg.rustls_client_session_new(cfg, "bad\u{7}control", &mut out_session);
    assert_eq!(r, RustlsResult::Io);
    assert_eq!(out_session.id, 99);
}

#[test]
fn session_lifecycle_and_stale_handles() {
    let mut reg = Registry::new();
    let cfg = reg.rustls_client_config_new();
    let mut sess = NULL_SESSION;
    assert_eq!(
        reg.rustls_client_session_new(cfg, "example.com", &mut sess),
        RustlsResult::Success
    );
    assert_eq!(sess.id, 1);
    assert!(reg.rustls_client_session_is_handshaking(sess));
    assert!(reg.rustls_client_session_wants_write(sess));
    assert_eq!(reg.rustls_client_session_free(sess), FreeOutcome::Freed);
    assert_eq!(reg.rustls_client_session_free(sess), FreeOutcome::Misuse);
    assert!(!reg.rustls_client_session_is_handshaking(sess));
    let mut out_n: usize = 3;
    assert_eq!(
        reg.rustls_client_session_write(sess, b"abc", &mut out_n),
        RustlsResult::NullParameter
    );
    assert_eq!(reg.rustls_client_config_free(cfg), FreeOutcome::Freed);
}

#[test]
fn config_outlives_callers_handle() {
    let mut reg = Registry::new();
    let cfg = reg.rustls_client_config_new();
    let mut sess = NULL_SESSION;
    assert_eq!(
        reg.rustls_client_session_new(cfg, "example.com", &mut sess),
        RustlsResult::Success
    );
    // The session holds its own reference, so the caller's handle can go.
    assert_eq!(reg.rustls_client_config_free(cfg), FreeOutcome::Released);
    // The session stays fully functional.
    assert!(reg.rustls_client_session_is_handshaking(sess));
    assert_eq!(
        reg.rustls_client_session_process_new_packets(sess),
        RustlsResult::Success
    );
    let mut out_n: usize = 0;
    let mut wire = vec![0u8; 4096];
    assert_eq!(
        reg.rustls_client_session_write_tls(sess, &mut wire, &mut out_n),
        RustlsResult::Success
    );
    // The client hello is queued right after construction.
    assert!(out_n > 0);
    // Destroying the session drops the last reference to the configuration.
    assert_eq!(reg.rustls_client_session_free(sess), FreeOutcome::Freed);
    assert_eq!(reg.rustls_client_config_free(cfg), FreeOutcome::Misuse);
}

#[test]
fn two_sessions_share_one_config() {
    let mut reg = Registry::new();
    let cfg = reg.rustls_client_config_new();
    let mut s1 = NULL_SESSION;
    let mut s2 = NULL_SESSION;
    assert_eq!(reg.rustls_client_session_new(cfg, "a.example.com", &mut s1), RustlsResult::Success);
    assert_eq!(reg.rustls_client_session_new(cfg, "b.example.com", &mut s2), RustlsResult::Success);
    assert_ne!(s1.id, s2.id);
    assert_eq!(reg.rustls_client_session_free(s1), FreeOutcome::Freed);
    // The second session still keeps the configuration alive.
    assert_eq!(reg.rustls_client_config_free(cfg), FreeOutcome::Released);
    assert!(reg.rustls_client_session_is_handshaking(s2));
    assert_eq!(reg.rustls_client_session_free(s2), FreeOutcome::Freed);
}

#[test]
fn zero_length_buffers_are_neutral() {
    let mut reg = Registry::new();
    let cfg = reg.rustls_client_config_new();
    let mut sess = NULL_SESSION;
    assert_eq!(
        reg.rustls_client_session_new(cfg, "example.com", &mut sess),
        RustlsResult::Success
    );
    let mut out_n: usize = 55;
    assert_eq!(reg.rustls_client_session_write(sess, b"", &mut out_n), RustlsResult::Success);
    assert_eq!(out_n, 0);
    out_n = 55;
    let mut empty: Vec<u8> = Vec::new();
    assert_eq!(
        reg.rustls_client_session_read(sess, &mut empty, &mut out_n),
        RustlsResult::Success
    );
    assert_eq!(out_n, 0);
    out_n = 55;
    assert_eq!(reg.rustls_client_session_read_tls(sess, b"", &mut out_n), RustlsResult::Success);
    assert_eq!(out_n, 0);
    out_n = 55;
    assert_eq!(
        reg.rustls_client_session_write_tls(sess, &mut empty, &mut out_n),
        RustlsResult::Success
    );
    assert_eq!(out_n, 0);
}

#[test]
fn receive_plaintext_zero_fills_and_reports_no_data() {
    let mut reg = Registry::new();
    let cfg = reg.rustls_client_config_new();
    let mut sess = NULL_SESSION;
    assert_eq!(
        reg.rustls_client_session_new(cfg, "example.com", &mut sess),
        RustlsResult::Success
    );
    let mut buf = vec![0xFFu8; 16];
    let mut out_n: usize = 99;
    assert_eq!(reg.rustls_client_session_read(sess, &mut buf, &mut out_n), RustlsResult::Success);
    assert_eq!(out_n, 0);
    assert!(buf.iter().all(|b| *b == 0));
    assert_eq!(buf.len(), 16);
}

#[test]
fn garbage_ciphertext_is_an_ordinary_engine_failure() {
    let mut reg = Registry::new();
    let cfg = reg.rustls_client_config_new();
    let mut sess = NULL_SESSION;
    assert_eq!(
        reg.rustls_client_session_new(cfg, "example.com", &mut sess),
        RustlsResult::Success
    );
    let garbage = [0xA5u8; 64];
    let mut out_n: usize = 0;
    assert_eq!(
        reg.rustls_client_session_read_tls(sess, &garbage, &mut out_n),
        RustlsResult::Success
    );
    assert_eq!(out_n, garbage.len());
    let r = reg.rustls_client_session_process_new_packets(sess);
    assert!(!r.is_success());
    assert!(r.code() >= 101);
    // The failure degrades the session; reads still answer, never crash.
    let mut buf = vec![0u8; 8];
    let rr = reg.rustls_client_session_read(sess, &mut buf, &mut out_n);
    assert!(rr == RustlsResult::Success || rr == RustlsResult::Io);
    assert_eq!(reg.rustls_client_session_free(sess), FreeOutcome::Freed);
    assert_eq!(reg.rustls_client_config_free(cfg), FreeOutcome::Freed);
}

#[test]
fn feed_consumes_whole_request_even_beyond_engine_capacity() {
    let mut reg = Registry::new();
    let cfg = reg.rustls_client_config_new();
    let mut sess = NULL_SESSION;
    assert_eq!(
        reg.rustls_client_session_new(cfg, "example.com", &mut sess),
        RustlsResult::Success
    );
    // Far more than the engine buffers in one gulp: the ingress buffer
    // takes it all, so a nonzero request never reports zero consumed.
    let big = vec![0x5Au8; 100_000];
    let mut out_n: usize = 0;
    assert_eq!(
        reg.rustls_client_session_read_tls(sess, &big, &mut out_n),
        RustlsResult::Success
    );
    assert_eq!(out_n, big.len());
    let r = reg.rustls_client_session_process_new_packets(sess);
    assert!(!r.is_success());
    assert!(r.code() >= 101);
}

#[test]
fn submit_plaintext_reports_accepted_count() {
    let mut reg = Registry::new();
    let cfg = reg.rustls_client_config_new();
    let mut sess = NULL_SESSION;
    assert_eq!(
        reg.rustls_client_session_new(cfg, "example.com", &mut sess),
        RustlsResult::Success
    );
    let mut out_n: usize = 0;
    let data = b"queued before the handshake completes";
    assert_eq!(reg.rustls_client_session_write(sess, data, &mut out_n), RustlsResult::Success);
    assert!(out_n <= data.len());
    // Resubmitting the remainder keeps being accepted.
    let mut accepted = out_n;
    let mut rounds = 0;
    while accepted < data.len() && rounds < 100 {
        assert_eq!(
            reg.rustls_client_session_write(sess, &data[accepted..], &mut out_n),
            RustlsResult::Success
        );
        accepted += out_n;
        rounds += 1;
    }
    assert_eq!(accepted, data.len());
}

#[test]
fn wants_read_during_handshake_after_hello_drained() {
    let mut reg = Registry::new();
    let cfg = reg.rustls_client_config_new();
    let mut sess = NULL_SESSION;
    assert_eq!(
        reg.rustls_client_session_new(cfg, "example.com", &mut sess),
        RustlsResult::Success
    );
    let mut out_n: usize = 0;
    let mut wire = vec![0u8; 8192];
    assert_eq!(
        reg.rustls_client_session_write_tls(sess, &mut wire, &mut out_n),
        RustlsResult::Success
    );
    assert!(out_n > 0 && out_n <= wire.len());
    // With the hello on the wire, the engine waits for the server.
    assert!(reg.rustls_client_session_wants_read(sess));
    assert!(reg.rustls_client_session_is_handshaking(sess));
}

#[test]
fn result_codes_are_stable_and_distinct() {
    assert_eq!(RustlsResult::Success.code(), 0);
    assert_eq!(RustlsResult::NullParameter.code(), 1);
    assert_eq!(RustlsResult::Io.code(), 2);
    assert_eq!(map_engine_failure(TlsFailure::CorruptMessage).code(), 103);
    assert_eq!(map_engine_failure(TlsFailure::WebPkiError).code(), 110);
    assert_eq!(map_engine_failure(TlsFailure::AlertReceived).code(), 109);
    let all = [
        RustlsResult::Success,
        RustlsResult::NullParameter,
        RustlsResult::Io,
        map_engine_failure(TlsFailure::InappropriateMessage),
        map_engine_failure(TlsFailure::InappropriateHandshakeMessage),
        map_engine_failure(TlsFailure::CorruptMessage),
        map_engine_failure(TlsFailure::CorruptMessagePayload),
        map_engine_failure(TlsFailure::NoCertificatesPresented),
        map_engine_failure(TlsFailure::DecryptError),
        map_engine_failure(TlsFailure::PeerIncompatibleError),
        map_engine_failure(TlsFailure::PeerMisbehavedError),
        map_engine_failure(TlsFailure::AlertReceived),
        map_engine_failure(TlsFailure::WebPkiError),
        map_engine_failure(TlsFailure::InvalidSct),
        map_engine_failure(TlsFailure::General),
        map_engine_failure(TlsFailure::FailedToGetCurrentTime),
        map_engine_failure(TlsFailure::HandshakeNotComplete),
        map_engine_failure(TlsFailure::PeerSentOversizedRecord),
        map_engine_failure(TlsFailure::NoApplicationProtocol),
    ];
    for (x, a) in all.iter().enumerate() {
        for (y, b) in all.iter().enumerate() {
            if x != y {
                assert_ne!(a.code(), b.code());
            }
        }
    }
}
