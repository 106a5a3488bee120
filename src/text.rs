use vstd::prelude::*;
use crate::release::{CheckError, Release};
use vstd::std_specs::iter::IteratorSpec;

verus! {

/// The characters of `s`, in order.
pub(crate) fn chars_of(s: &str) -> (r: Vec<char>)
    ensures
        r@ == s@,
{
    broadcast use vstd::string::axiom_spec_iter, vstd::string::next_postcondition;

    let mut it = s.chars();
    let mut out: Vec<char> = Vec::new();
    loop
        invariant
            out@ + it.remaining() == s@,
            it.decrease() is Some,
        ensures
            out@ =~= s@,
        decreases it.decrease()->0,
    {
        match it.next() {
            Some(c) => out.push(c),
            None => break,
        }
    }
    out
}

/// Relies on String::push: appends one character.
#[verifier::external_body]
fn push_char(s: &mut String, c: char)
    ensures
        final(s)@ == old(s)@.push(c),
{
    s.push(c)
}

/// The string of these characters.
pub(crate) fn string_of(cs: &Vec<char>) -> (r: String)
    ensures
        r@ == cs@,
{
    let mut out = String::new();
    let mut i: usize = 0;
    while i < cs.len()
        invariant
            i <= cs@.len(),
            out@ == cs@.subrange(0, i as int),
        decreases cs@.len() - i,
    {
        push_char(&mut out, cs[i]);
        i = i + 1;
        assert(out@ =~= cs@.subrange(0, i as int));
    }
    assert(cs@.subrange(0, i as int) =~= cs@);
    out
}

/// The text after the last `@`; the whole text where there is none.
pub open spec fn digest_of(payload: Seq<char>) -> Seq<char>
    decreases payload.len(),
{
    if payload.len() == 0 {
        payload
    } else if payload.last() == '@' {
        Seq::empty()
    } else {
        digest_of(payload.drop_last()).push(payload.last())
    }
}

/// The text before the first `+`; the whole text where there is none.
pub open spec fn without_build(version: Seq<char>) -> Seq<char>
    decreases version.len(),
{
    if version.len() == 0 {
        version
    } else if version[0] == '+' {
        Seq::empty()
    } else {
        seq![version[0]] + without_build(version.drop_first())
    }
}

/// A digest as a path segment: each `:` becomes `=`.
pub open spec fn segment_of(digest: Seq<char>) -> Seq<char> {
    digest.map_values(|c: char| if c == ':' { '=' } else { c })
}

/// Digest extraction: the release's payload must be present and non-empty.
pub open spec fn release_digest(release: Release) -> Option<Seq<char>> {
    match release {
        Release::Concrete { payload, .. } => if payload@.len() == 0 {
            None
        } else {
            Some(digest_of(payload@))
        },
        Release::Abstract { .. } => None,
    }
}

proof fn lemma_digest_of_split(s: Seq<char>, k: int)
    requires
        0 <= k <= s.len(),
        forall|j: int| k <= j < s.len() ==> s[j] != '@',
        k == 0 || s[k - 1] == '@',
    ensures
        digest_of(s) == s.subrange(k, s.len() as int),
    decreases s.len(),
{
    if s.len() == k {
        if k > 0 {
            assert(s.last() == '@');
        }
        assert(s.subrange(k, s.len() as int) =~= Seq::<char>::empty());
    } else {
        lemma_digest_of_split(s.drop_last(), k);
        assert(s.subrange(k, s.len() as int) =~= s.drop_last().subrange(k, s.len() - 1).push(
            s.last(),
        ));
    }
}

/// The digest of a release: the last `@`-separated part of its payload.
pub fn payload_digest(release: &Release) -> (r: Result<String, CheckError>)
    ensures
        match release {
            Release::Abstract { version } => r matches Err(CheckError::NotConcreteRelease { version: v })
                && v@ == version@,
            Release::Concrete { version, payload } => if payload@.len() == 0 {
                r matches Err(CheckError::MalformedPayload { version: v, payload: p })
                    && v@ == version@ && p@ == payload@
            } else {
                r matches Ok(d) && d@ == digest_of(payload@)
            },
        },
{
    match release {
        Release::Abstract { version } => Err(CheckError::NotConcreteRelease { version: version.clone() }),
        Release::Concrete { version, payload } => {
            let cs = chars_of(payload.as_str());
            if cs.len() == 0 {
                return Err(
                    CheckError::MalformedPayload { version: version.clone(), payload: payload.clone() },
                );
            }
            let mut k: usize = cs.len();
            while k > 0 && cs[k - 1] != '@'
                invariant
                    k <= cs@.len(),
                    forall|j: int| k <= j < cs@.len() ==> cs@[j] != '@',
                decreases k,
            {
                k = k - 1;
            }
            proof {
                lemma_digest_of_split(cs@, k as int);
            }
            let mut out: Vec<char> = Vec::new();
            let mut i: usize = k;
            while i < cs.len()
                invariant
                    k <= i <= cs@.len(),
                    out@ == cs@.subrange(k as int, i as int),
                decreases cs@.len() - i,
            {
                out.push(cs[i]);
                i = i + 1;
                assert(out@ =~= cs@.subrange(k as int, i as int));
            }
            Ok(string_of(&out))
        },
    }
}

proof fn lemma_without_build_split(s: Seq<char>, k: int)
    requires
        0 <= k <= s.len(),
        forall|j: int| 0 <= j < k ==> s[j] != '+',
        k == s.len() || s[k] == '+',
    ensures
        without_build(s) == s.subrange(0, k),
    decreases s.len(),
{
    if k == 0 {
        assert(s.subrange(0, 0) =~= Seq::<char>::empty());
    } else {
        lemma_without_build_split(s.drop_first(), k - 1);
        assert(s.subrange(0, k) =~= seq![s[0]] + s.drop_first().subrange(0, k - 1));
    }
}

/// A version string without its build suffix (everything from the first `+`).
pub fn strip_build(version: &str) -> (r: String)
    ensures
        r@ == without_build(version@),
{
    let cs = chars_of(version);
    let mut out: Vec<char> = Vec::new();
    let mut i: usize = 0;
    while i < cs.len() && cs[i] != '+'
        invariant
            i <= cs@.len(),
            forall|j: int| 0 <= j < i ==> cs@[j] != '+',
            out@ == cs@.subrange(0, i as int),
        decreases cs@.len() - i,
    {
        out.push(cs[i]);
        i = i + 1;
        assert(out@ =~= cs@.subrange(0, i as int));
    }
    proof {
        lemma_without_build_split(cs@, i as int);
    }
    string_of(&out)
}

/// A digest made fit for a path segment: each `:` becomes `=`.
pub fn url_segment(digest: &str) -> (r: String)
    ensures
        r@ == segment_of(digest@),
{
    let cs = chars_of(digest);
    let mut out: Vec<char> = Vec::new();
    let mut i: usize = 0;
    while i < cs.len()
        invariant
            i <= cs@.len(),
            out@ == segment_of(cs@.subrange(0, i as int)),
        decreases cs@.len() - i,
    {
        let c = cs[i];
        out.push(if c == ':' { '=' } else { c });
        i = i + 1;
        assert(segment_of(cs@.subrange(0, i as int)) =~= segment_of(cs@.subrange(0, i - 1)).push(
            if c == ':' { '=' } else { c },
        ));
    }
    assert(cs@.subrange(0, cs@.len() as int) =~= cs@);
    string_of(&out)
}

/// The decimal digit of `d` (below ten).
pub open spec fn digit_char(d: nat) -> char {
    if d == 0 { '0' } else if d == 1 { '1' } else if d == 2 { '2' } else if d == 3 { '3' }
    else if d == 4 { '4' } else if d == 5 { '5' } else if d == 6 { '6' } else if d == 7 { '7' }
    else if d == 8 { '8' } else { '9' }
}

/// The decimal notation of `n`, without leading zeros.
pub open spec fn decimal(n: nat) -> Seq<char>
    decreases n,
{
    if n < 10 {
        seq![digit_char(n)]
    } else {
        decimal(n / 10).push(digit_char(n % 10))
    }
}

/// Appends the decimal notation of `n` to `out`.
pub(crate) fn push_decimal(n: u64, out: &mut Vec<char>)
    ensures
        final(out)@ == old(out)@ + decimal(n as nat),
    decreases n,
{
    if n >= 10 {
        push_decimal(n / 10, out);
    }
    let d = n % 10;
    let c = if d == 0 { '0' } else if d == 1 { '1' } else if d == 2 { '2' } else if d == 3 { '3' }
    else if d == 4 { '4' } else if d == 5 { '5' } else if d == 6 { '6' } else if d == 7 { '7' }
    else if d == 8 { '8' } else { '9' };
    out.push(c);
    assert(final(out)@ =~= old(out)@ + decimal(n as nat));
}

} // verus!
