//! Confirms that every tracked release has at least one signature object in a
//! digest-addressed signature store.
//!
//! The library holds the decisions: which releases are in scope, which digest
//! and location each probe uses, when a release's probing stops, and how the
//! per-release outcomes are gathered in submission order. Performing the
//! requests is left to the caller, which hands each outcome back.
pub mod text;
pub mod version;
pub mod probe;
pub mod discovery;
pub mod batch;
pub mod release;

pub use release::{CheckError, ProbeError, Release};
pub use text::{payload_digest, strip_build, url_segment};
pub use version::{is_tracked, select_releases, SemVer};
pub use probe::{signature_url, MAX_SIGNATURES, REQUEST_TIMEOUT_SECS, SIGNATURE_STORE};
pub use discovery::{Action, Discovery};
pub use batch::Collector;
