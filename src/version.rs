use vstd::prelude::*;
use crate::release::{CheckError, Release};
use crate::text::{strip_build, without_build};

verus! {

#[verifier::external_type_specification]
#[verifier::external_body]
pub struct ExSemverError(semver::Error);

/// A semantic version as plain values: the three numbers, the pre-release
/// and the build metadata text (each empty where absent).
#[derive(Clone, Debug)]
pub struct SemVer {
    pub major: u64,
    pub minor: u64,
    pub patch: u64,
    pub pre: String,
    pub build: String,
}

impl View for SemVer {
    type V = (u64, u64, u64, Seq<char>, Seq<char>);

    open spec fn view(&self) -> Self::V {
        (self.major, self.minor, self.patch, self.pre@, self.build@)
    }
}

/// What semver's parser makes of a text: `None` where it refuses it.
pub uninterp spec fn semver_of(s: Seq<char>) -> Option<(u64, u64, u64, Seq<char>, Seq<char>)>;

/// Relies on semver::Version::parse; the result depends on the text alone.
/// Pre-release and build metadata are read back with their `as_str`.
#[verifier::external_body]
fn parse_semver(s: &str) -> (r: Result<SemVer, semver::Error>)
    ensures
        r is Ok <==> semver_of(s@) is Some,
        r matches Ok(v) ==> v@ == semver_of(s@)->0,
{
    semver::Version::parse(s).map(|v| SemVer {
        major: v.major,
        minor: v.minor,
        patch: v.patch,
        pre: v.pre.as_str().to_string(),
        build: v.build.as_str().to_string(),
    })
}

impl SemVer {
    /// Parses a semantic version; `None` where the text is not one.
    pub fn parse(s: &str) -> (r: Option<SemVer>)
        ensures
            r is Some <==> semver_of(s@) is Some,
            r matches Some(v) ==> v@ == semver_of(s@)->0,
    {
        match parse_semver(s) {
            Ok(v) => Some(v),
            Err(_) => None,
        }
    }

    /// Whether two versions are equal: all five parts alike.
    pub fn same(&self, other: &SemVer) -> (r: bool)
        ensures
            r == (self@ == other@),
    {
        self.major == other.major && self.minor == other.minor && self.patch == other.patch
            && self.pre == other.pre && self.build == other.build
    }
}

/// The versions of a known list, as a set.
pub open spec fn version_set(known: Seq<SemVer>) -> Set<(u64, u64, u64, Seq<char>, Seq<char>)> {
    known.map_values(|v: SemVer| v@).to_set()
}

/// The normalized version of a release: `None` where it does not parse.
pub open spec fn release_version(release: Release) -> Option<(u64, u64, u64, Seq<char>, Seq<char>)> {
    semver_of(without_build(release.version_view()))
}

/// Whether `v` is one of the known versions.
pub fn contains_version(known: &Vec<SemVer>, v: &SemVer) -> (r: bool)
    ensures
        r == version_set(known@).contains(v@),
{
    let mut i: usize = 0;
    while i < known.len()
        invariant
            i <= known@.len(),
            forall|j: int| 0 <= j < i ==> known@[j]@ != v@,
        decreases known@.len() - i,
    {
        if known[i].same(v) {
            assert(known@.map_values(|x: SemVer| x@)[i as int] == v@);
            return true;
        }
        i = i + 1;
    }
    proof {
        if version_set(known@).contains(v@) {
            let views = known@.map_values(|x: SemVer| x@);
            assert(views.contains(v@));
            let j = choose|j: int| 0 <= j < views.len() && #[trigger] views[j] == v@;
            assert(known@[j]@ == v@);
        }
    }
    false
}

/// Whether a release is in scope: its version, without the build suffix,
/// is one of the known versions. Fails where that version does not parse.
pub fn is_tracked(known: &Vec<SemVer>, release: &Release) -> (r: Result<bool, CheckError>)
    ensures
        match release_version(*release) {
            None => r matches Err(CheckError::VersionParseFailure { version })
                && version@ == release.version_view(),
            Some(v) => r == Ok::<bool, CheckError>(version_set(known@).contains(v)),
        },
{
    let stripped = strip_build(release.version());
    match SemVer::parse(stripped.as_str()) {
        Some(v) => Ok(contains_version(known, &v)),
        None => Err(CheckError::VersionParseFailure { version: release.version().to_string() }),
    }
}

/// The positions of the in-scope releases, in their order.
pub open spec fn selection(releases: Seq<Release>, known: Seq<SemVer>) -> Seq<usize>
    decreases releases.len(),
{
    if releases.len() == 0 {
        Seq::empty()
    } else {
        let before = selection(releases.drop_last(), known);
        match release_version(releases.last()) {
            Some(v) => if version_set(known).contains(v) {
                before.push((releases.len() - 1) as usize)
            } else {
                before
            },
            None => before,
        }
    }
}

/// The releases to check, by position, in their given order. Fails on the
/// first release whose version does not parse: no release is then checked.
pub fn select_releases(releases: &Vec<Release>, known: &Vec<SemVer>) -> (r: Result<
    Vec<usize>,
    CheckError,
>)
    ensures
        match r {
            Ok(chosen) => (forall|i: int|
                0 <= i < releases@.len() ==> (#[trigger] release_version(releases@[i])) is Some)
                && chosen@ == selection(releases@, known@),
            Err(e) => exists|i: int|
                0 <= i < releases@.len() && (#[trigger] release_version(releases@[i])) is None
                    && (forall|j: int| 0 <= j < i ==> release_version(releases@[j]) is Some)
                    && (e matches CheckError::VersionParseFailure { version }
                    && version@ == releases@[i].version_view()),
        },
{
    let mut chosen: Vec<usize> = Vec::new();
    let mut i: usize = 0;
    while i < releases.len()
        invariant
            i <= releases@.len(),
            forall|j: int| 0 <= j < i ==> (#[trigger] release_version(releases@[j])) is Some,
            chosen@ == selection(releases@.subrange(0, i as int), known@),
        decreases releases@.len() - i,
    {
        proof {
            assert(releases@.subrange(0, i + 1).drop_last() =~= releases@.subrange(0, i as int));
        }
        match is_tracked(known, &releases[i]) {
            Ok(true) => chosen.push(i),
            Ok(false) => {},
            Err(e) => return Err(e),
        }
        i = i + 1;
    }
    assert(releases@.subrange(0, i as int) =~= releases@);
    Ok(chosen)
}

} // verus!
