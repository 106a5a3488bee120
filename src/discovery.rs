use vstd::prelude::*;
use crate::probe::{signature_location, signature_url, MAX_SIGNATURES};
use crate::release::{CheckError, ProbeError, Release};
use crate::text::{digest_of, payload_digest};

verus! {

/// The search for one release's signature: which candidate index comes next,
/// the errors of the candidates that failed, and whether one was found.
pub struct Discovery {
    version: String,
    payload: String,
    digest: String,
    index: u64,
    errors: Vec<ProbeError>,
    found: bool,
    awaiting: bool,
}

/// The abstract state of a [`Discovery`].
pub struct DiscoveryView {
    pub version: Seq<char>,
    pub payload: Seq<char>,
    pub digest: Seq<char>,
    /// The candidate index in flight, or the next one to try.
    pub index: nat,
    /// One error per failed candidate, for the indices from 1 on, in order.
    pub errors: Seq<ProbeError>,
    pub found: bool,
    /// A request for `index` has been handed out and not yet answered.
    pub awaiting: bool,
}

impl DiscoveryView {
    pub open spec fn wf(self) -> bool {
        &&& 1 <= self.index <= MAX_SIGNATURES
        &&& self.errors.len() == self.index - 1
        &&& forall|k: int| 0 <= k < self.errors.len() ==> (#[trigger] self.errors[k].index_of()) == k + 1
        &&& self.found ==> self.index < MAX_SIGNATURES && !self.awaiting
        &&& self.awaiting ==> self.index < MAX_SIGNATURES
        &&& self.payload.len() > 0
        &&& self.digest == digest_of(self.payload)
    }

    /// No more requests are to be made.
    pub open spec fn is_done(self) -> bool {
        !self.awaiting && (self.found || self.index == MAX_SIGNATURES)
    }
}

impl View for Discovery {
    type V = DiscoveryView;

    closed spec fn view(&self) -> DiscoveryView {
        DiscoveryView {
            version: self.version@,
            payload: self.payload@,
            digest: self.digest@,
            index: self.index as nat,
            errors: self.errors@,
            found: self.found,
            awaiting: self.awaiting,
        }
    }
}

/// What the caller is to do next for a release.
#[derive(Debug)]
pub enum Action {
    /// Request the signature object at `url`, then report the outcome.
    Fetch { index: u64, url: String },
    /// Probing is over; take the result.
    Finished,
}

/// From candidate `index` on, the candidates for which no location can be
/// formed fail at once; the first index with a location (or the bound), and
/// the errors then recorded.
pub open spec fn skip_unlocatable(digest: Seq<char>, index: nat, errors: Seq<ProbeError>) -> (
    nat,
    Seq<ProbeError>,
)
    decreases MAX_SIGNATURES - index,
{
    if index >= MAX_SIGNATURES || signature_location(digest, index) is Some {
        (index, errors)
    } else {
        skip_unlocatable(
            digest,
            index + 1,
            errors.push(ProbeError::InvalidLocation { index: index as u64 }),
        )
    }
}

impl Discovery {
    pub open spec fn inv(&self) -> bool {
        self@.wf()
    }

    /// Begins the search for a release's signature at candidate index 1.
    /// A release without a usable payload fails here and is never probed.
    pub fn start(release: &Release) -> (r: Result<Discovery, CheckError>)
        ensures
            match release {
                Release::Abstract { version } => r matches Err(
                    CheckError::NotConcreteRelease { version: v },
                ) && v@ == version@,
                Release::Concrete { version, payload } => if payload@.len() == 0 {
                    r matches Err(CheckError::MalformedPayload { version: v, payload: p })
                        && v@ == version@ && p@ == payload@
                } else {
                    r matches Ok(d) && d.inv() && d@.version == version@ && d@.payload == payload@
                        && d@.digest == digest_of(payload@) && d@.index == 1 && d@.errors.len() == 0
                        && !d@.found && !d@.awaiting
                },
            },
    {
        let digest = match payload_digest(release) {
            Ok(d) => d,
            Err(e) => return Err(e),
        };
        match release {
            Release::Concrete { version, payload } => Ok(
                Discovery {
                    version: version.clone(),
                    payload: payload.clone(),
                    digest,
                    index: 1,
                    errors: Vec::new(),
                    found: false,
                    awaiting: false,
                },
            ),
            Release::Abstract { version } => Err(CheckError::NotConcreteRelease { version: version.clone() }),
        }
    }

    /// The release's version string.
    pub fn version(&self) -> (r: &str)
        ensures
            r@ == self@.version,
    {
        self.version.as_str()
    }

    /// The release's payload reference.
    pub fn payload(&self) -> (r: &str)
        ensures
            r@ == self@.payload,
    {
        self.payload.as_str()
    }

    /// The release's content digest.
    pub fn digest(&self) -> (r: &str)
        ensures
            r@ == self@.digest,
    {
        self.digest.as_str()
    }

    /// Whether no more requests are to be made.
    pub fn is_done(&self) -> (r: bool)
        requires
            self.inv(),
        ensures
            r == self@.is_done(),
    {
        !self.awaiting && (self.found || self.index == MAX_SIGNATURES)
    }

    /// The next request to make. Once a signature was found, or every
    /// candidate failed, there is none. Candidates without a location fail
    /// without a request.
    pub fn next(&mut self) -> (a: Action)
        requires
            old(self).inv(),
            !old(self)@.awaiting,
        ensures
            final(self).inv(),
            old(self)@.found ==> a is Finished && final(self)@ == old(self)@,
            !old(self)@.found ==> {
                let (j, es) = skip_unlocatable(old(self)@.digest, old(self)@.index, old(self)@.errors);
                &&& final(self)@ == (DiscoveryView {
                    index: j,
                    errors: es,
                    awaiting: j < MAX_SIGNATURES,
                    ..old(self)@
                })
                &&& j < MAX_SIGNATURES ==> (a matches Action::Fetch { index, url } && index == j
                    && url@ == signature_location(old(self)@.digest, j)->0)
                &&& j >= MAX_SIGNATURES ==> a is Finished
            },
    {
        if self.found {
            return Action::Finished;
        }
        let ghost start = self@;
        while self.index < MAX_SIGNATURES
            invariant
                self.inv(),
                start == old(self)@,
                !start.found,
                !self.found,
                !self.awaiting,
                self@.version == start.version,
                self@.payload == start.payload,
                self@.digest == start.digest,
                skip_unlocatable(self@.digest, self@.index, self@.errors) == skip_unlocatable(
                    start.digest,
                    start.index,
                    start.errors,
                ),
            decreases MAX_SIGNATURES - self.index,
        {
            match signature_url(self.digest.as_str(), self.index) {
                Ok(url) => {
                    self.awaiting = true;
                    return Action::Fetch { index: self.index, url };
                },
                Err(e) => {
                    self.errors.push(e);
                    self.index = self.index + 1;
                },
            }
        }
        Action::Finished
    }

    /// Records the outcome of the request for the current candidate: a
    /// success ends the search, a failure is kept and the next index follows.
    pub fn record(&mut self, outcome: Result<(), String>)
        requires
            old(self).inv(),
            old(self)@.awaiting,
        ensures
            final(self).inv(),
            match outcome {
                Ok(()) => final(self)@ == (DiscoveryView { found: true, awaiting: false, ..old(self)@ }),
                Err(detail) => final(self)@ == (DiscoveryView {
                    index: old(self)@.index + 1,
                    errors: old(self)@.errors.push(
                        ProbeError::Unreachable { index: old(self)@.index as u64, detail },
                    ),
                    awaiting: false,
                    ..old(self)@
                }),
            },
    {
        self.awaiting = false;
        match outcome {
            Ok(()) => {
                self.found = true;
            },
            Err(detail) => {
                self.errors.push(ProbeError::Unreachable { index: self.index, detail });
                self.index = self.index + 1;
            },
        }
    }

    /// The release's result: success where a signature was found, else the
    /// error for each candidate index, in order.
    pub fn finish(self) -> (r: Result<(), CheckError>)
        requires
            self.inv(),
            self@.is_done(),
        ensures
            self@.found ==> r is Ok,
            !self@.found ==> (r matches Err(
                CheckError::DiscoveryExhausted { version, payload, errors },
            ) && version@ == self@.version && payload@ == self@.payload && errors@ == self@.errors
                && errors@.len() == MAX_SIGNATURES - 1),
    {
        if self.found {
            Ok(())
        } else {
            Err(
                CheckError::DiscoveryExhausted {
                    version: self.version,
                    payload: self.payload,
                    errors: self.errors,
                },
            )
        }
    }
}

} // verus!
