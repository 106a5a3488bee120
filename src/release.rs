use vstd::prelude::*;

verus! {

/// One release of the update graph, as far as the signature check reads it.
#[derive(Clone, Debug)]
pub enum Release {
    /// A release that carries a payload reference ending in its content digest.
    Concrete { version: String, payload: String },
    /// A placeholder release without a payload.
    Abstract { version: String },
}

impl Release {
    pub open spec fn version_view(&self) -> Seq<char> {
        match self {
            Release::Concrete { version, .. } => version@,
            Release::Abstract { version } => version@,
        }
    }

    /// The human-readable version string.
    pub fn version(&self) -> (r: &str)
        ensures
            r@ == self.version_view(),
    {
        match self {
            Release::Concrete { version, .. } => version.as_str(),
            Release::Abstract { version } => version.as_str(),
        }
    }
}

/// Why one candidate signature object could not be confirmed.
#[derive(Clone, Debug)]
pub enum ProbeError {
    /// No location could be formed for this candidate index.
    InvalidLocation { index: u64 },
    /// The request failed or answered with a non-success status.
    Unreachable { index: u64, detail: String },
}

impl ProbeError {
    pub open spec fn index_of(&self) -> u64 {
        match self {
            ProbeError::InvalidLocation { index } => *index,
            ProbeError::Unreachable { index, .. } => *index,
        }
    }
}

/// Why a release (or the selection of releases) failed the check.
#[derive(Clone, Debug)]
pub enum CheckError {
    /// The release has no payload to take a digest from.
    NotConcreteRelease { version: String },
    /// The payload reference is empty.
    MalformedPayload { version: String, payload: String },
    /// The version string, without its build suffix, is not a semantic version.
    VersionParseFailure { version: String },
    /// Every candidate signature index failed; one error per index, in order.
    DiscoveryExhausted { version: String, payload: String, errors: Vec<ProbeError> },
}

} // verus!
