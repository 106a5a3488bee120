use check_signatures::{
    is_tracked, payload_digest, select_releases, signature_url, strip_build, url_segment,
    CheckError, ProbeError, Release, SemVer,
};

fn concrete(version: &str, payload: &str) -> Release {
    Release::Concrete { version: version.to_string(), payload: payload.to_string() }
}

fn known(list: &[&str]) -> Vec<SemVer> {
    list.iter().map(|v| SemVer::parse(v).unwrap()).collect()
}

#[test]
fn digest_of_abstract_release_is_refused() {
    let r = Release::Abstract { version: "4.1.0".to_string() };
    match payload_digest(&r) {
        Err(CheckError::NotConcreteRelease { version }) => assert_eq!(version, "4.1.0"),
        other => panic!("unexpected {:?}", other),
    }
}

#[test]
fn digest_is_last_at_segment() {
    let r = concrete("4.1.0", "registry/repo@sha256:abcd");
    assert_eq!(payload_digest(&r).unwrap(), "sha256:abcd");
    assert_eq!(url_segment("sha256:abcd"), "sha256=abcd");
}

#[test]
fn digest_without_at_is_whole_payload() {
    assert_eq!(payload_digest(&concrete("1.0.0", "sha256:ff")).unwrap(), "sha256:ff");
    assert_eq!(payload_digest(&concrete("1.0.0", "a@b@c")).unwrap(), "c");
}

#[test]
fn empty_payload_is_malformed() {
    match payload_digest(&concrete("4.2.0", "")) {
        Err(CheckError::MalformedPayload { version, payload }) => {
            assert_eq!(version, "4.2.0");
            assert_eq!(payload, "");
        }
        other => panic!("unexpected {:?}", other),
    }
}

#[test]
fn segment_replaces_every_colon() {
    assert_eq!(url_segment("a:b:c"), "a=b=c");
    assert_eq!(url_segment(""), "");
}

#[test]
fn build_suffix_is_stripped() {
    assert_eq!(strip_build("4.1.0+amd64"), "4.1.0");
    assert_eq!(strip_build("4.1.0"), "4.1.0");
    assert_eq!(strip_build("+x"), "");
}

#[test]
fn version_with_arch_suffix_is_tracked() {
    let set = known(&["4.1.0"]);
    assert!(is_tracked(&set, &concrete("4.1.0+amd64", "r@sha256:1")).unwrap());
    assert!(!is_tracked(&set, &concrete("4.1.1+amd64", "r@sha256:1")).unwrap());
    assert!(!is_tracked(&known(&[]), &concrete("4.1.0", "r@sha256:1")).unwrap());
}

#[test]
fn unparsable_version_fails() {
    match is_tracked(&known(&["4.1.0"]), &concrete("4.1+amd64", "r@x")) {
        Err(CheckError::VersionParseFailure { version }) => assert_eq!(version, "4.1+amd64"),
        other => panic!("unexpected {:?}", other),
    }
}

#[test]
fn semver_parts_are_read() {
    let v = SemVer::parse("4.1.0-rc.1+b7").unwrap();
    assert_eq!((v.major, v.minor, v.patch), (4, 1, 0));
    assert_eq!(v.pre, "rc.1");
    assert_eq!(v.build, "b7");
    assert!(SemVer::parse("4.1").is_none());
    assert!(v.same(&SemVer::parse("4.1.0-rc.1+b7").unwrap()));
    assert!(!v.same(&SemVer::parse("4.1.0-rc.1").unwrap()));
}

#[test]
fn selection_keeps_order() {
    let releases = vec![
        concrete("4.2.0+amd64", "r@a"),
        Release::Abstract { version: "4.0.0".to_string() },
        concrete("4.1.0", "r@b"),
        concrete("4.1.0+s390x", "r@c"),
        Release::Abstract { version: "4.2.0".to_string() },
    ];
    let chosen = select_releases(&releases, &known(&["4.1.0", "4.2.0"])).unwrap();
    assert_eq!(chosen, vec![0, 2, 3, 4]);
}

#[test]
fn selection_stops_at_first_unparsable() {
    let releases = vec![concrete("4.1.0", "r@a"), concrete("bad", "r@b"), concrete("worse", "r@c")];
    match select_releases(&releases, &known(&["4.1.0"])) {
        Err(CheckError::VersionParseFailure { version }) => assert_eq!(version, "bad"),
        other => panic!("unexpected {:?}", other),
    }
}

#[test]
fn signature_location_is_exact() {
    assert_eq!(
        signature_url("sha256:abcd", 3).unwrap(),
        "https://mirror.openshift.com/pub/openshift-v4/signatures/openshift/release/sha256=abcd/signature-3"
    );
    assert_eq!(
        signature_url("sha256:ab", 12).unwrap(),
        "https://mirror.openshift.com/pub/openshift-v4/signatures/openshift/release/sha256=ab/signature-12"
    );
}

#[test]
fn unjoinable_location_is_invalid() {
    match signature_url("//[", 1) {
        Err(ProbeError::InvalidLocation { index }) => assert_eq!(index, 1),
        other => panic!("unexpected {:?}", other),
    }
}
