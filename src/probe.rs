use vstd::prelude::*;
use crate::release::ProbeError;
use crate::text::{chars_of, decimal, push_decimal, segment_of, string_of, url_segment};

verus! {

#[verifier::external_type_specification]
#[verifier::external_body]
pub struct ExUrlParseError(url::ParseError);

/// The directory of the signature store; each release has a directory below
/// it, named after its digest.
pub const SIGNATURE_STORE: &'static str = "https://mirror.openshift.com/pub/openshift-v4/signatures/openshift/release/";

/// Candidate signature indices run from 1 up to, and not including, this bound.
pub const MAX_SIGNATURES: u64 = 10;

/// Seconds that one signature request may take.
pub const REQUEST_TIMEOUT_SECS: u64 = 30;

/// The serialization of `relative` resolved against the URL `base`, as the
/// url crate does it: `None` where either cannot be read.
pub uninterp spec fn url_join(base: Seq<char>, relative: Seq<char>) -> Option<Seq<char>>;

/// Relies on url::Url::parse to read `base` and url::Url::join to resolve
/// `relative` against it; the result is the joined URL's serialization.
#[verifier::external_body]
fn join_url(base: &str, relative: &str) -> (r: Result<String, url::ParseError>)
    ensures
        r is Ok <==> url_join(base@, relative@) is Some,
        r matches Ok(u) ==> u@ == url_join(base@, relative@)->0,
{
    url::Url::parse(base).and_then(|b| b.join(relative)).map(String::from)
}

/// The name of the signature object with the given index.
pub open spec fn signature_name(index: nat) -> Seq<char> {
    seq!['s', 'i', 'g', 'n', 'a', 't', 'u', 'r', 'e', '-'] + decimal(index)
}

/// The location of signature `index` of the release with this digest: the
/// digest's directory (`:` written `=`) below the store, then the object name.
pub open spec fn signature_location(digest: Seq<char>, index: nat) -> Option<Seq<char>> {
    match url_join(SIGNATURE_STORE@, segment_of(digest).push('/')) {
        Some(dir) => url_join(dir, signature_name(index)),
        None => None,
    }
}

/// The location to probe for signature `index` of the release with this digest.
pub fn signature_url(digest: &str, index: u64) -> (r: Result<String, ProbeError>)
    ensures
        match signature_location(digest@, index as nat) {
            Some(u) => r matches Ok(s) && s@ == u,
            None => r == Err::<String, ProbeError>(ProbeError::InvalidLocation { index }),
        },
{
    let mut dir = chars_of(url_segment(digest).as_str());
    dir.push('/');
    let dir = string_of(&dir);
    let mut name: Vec<char> = Vec::new();
    name.push('s');
    name.push('i');
    name.push('g');
    name.push('n');
    name.push('a');
    name.push('t');
    name.push('u');
    name.push('r');
    name.push('e');
    name.push('-');
    push_decimal(index, &mut name);
    let name = string_of(&name);
    assert(name@ =~= signature_name(index as nat));
    match join_url(SIGNATURE_STORE, dir.as_str()) {
        Ok(base) => match join_url(base.as_str(), name.as_str()) {
            Ok(u) => Ok(u),
            Err(_) => Err(ProbeError::InvalidLocation { index }),
        },
        Err(_) => Err(ProbeError::InvalidLocation { index }),
    }
}

} // verus!
