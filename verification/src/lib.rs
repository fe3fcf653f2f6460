//! A client-side TLS session engine for callers that keep full control of
//! the transport. Configurations and sessions live in a registry and are
//! named by integer-valued handles; all I/O is copying between caller
//! buffers and the engine's internal buffers.

pub mod engine;
pub mod registry;
pub mod result;
pub mod version;

pub use registry::ConnState;
pub use registry::FreeOutcome;
pub use registry::Registry;
pub use registry::rustls_client_config;
pub use registry::rustls_client_session;
pub use result::map_engine_failure;
pub use result::RustlsResult;
pub use result::TlsFailure;
pub use version::rustls_version;
