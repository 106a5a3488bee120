use check_signatures::{Action, CheckError, Collector, Discovery, ProbeError, Release, MAX_SIGNATURES};

fn concrete(version: &str, payload: &str) -> Release {
    Release::Concrete { version: version.to_string(), payload: payload.to_string() }
}

/// Drives a discovery against a stub that answers by candidate index; the
/// indices requested, and the result.
fn drive<F: Fn(u64) -> bool>(release: &Release, succeeds: F) -> (Vec<u64>, Result<(), CheckError>) {
    let mut seen = vec![];
    let mut d = match Discovery::start(release) {
        Ok(d) => d,
        Err(e) => return (seen, Err(e)),
    };
    loop {
        match d.next() {
            Action::Fetch { index, url } => {
                seen.push(index);
                assert!(url.ends_with(&format!("/signature-{}", index)));
                if succeeds(index) {
                    d.record(Ok(()));
                } else {
                    d.record(Err(format!("Error fetching {} - 404 Not Found", url)));
                }
            }
            Action::Finished => {
                assert!(d.is_done());
                return (seen, d.finish());
            }
        }
    }
}

#[test]
fn discovery_stops_at_first_success() {
    let r = concrete("4.1.0", "quay.io/repo@sha256:dd");
    let (seen, result) = drive(&r, |i| i == 3);
    assert_eq!(seen, vec![1, 2, 3]);
    assert!(result.is_ok());
}

#[test]
fn discovery_exhausts_all_candidates() {
    let r = concrete("4.1.0", "quay.io/repo@sha256:dd");
    let (seen, result) = drive(&r, |_| false);
    assert_eq!(seen, (1..MAX_SIGNATURES).collect::<Vec<u64>>());
    match result {
        Err(CheckError::DiscoveryExhausted { version, payload, errors }) => {
            assert_eq!(version, "4.1.0");
            assert_eq!(payload, "quay.io/repo@sha256:dd");
            assert_eq!(errors.len(), 9);
            for (k, e) in errors.iter().enumerate() {
                match e {
                    ProbeError::Unreachable { index, detail } => {
                        assert_eq!(*index, k as u64 + 1);
                        assert!(detail.contains("sha256=dd"));
                    }
                    other => panic!("unexpected {:?}", other),
                }
            }
        }
        other => panic!("unexpected {:?}", other),
    }
}

#[test]
fn abstract_release_is_never_probed() {
    let r = Release::Abstract { version: "4.1.0".to_string() };
    let (seen, result) = drive(&r, |_| true);
    assert!(seen.is_empty());
    assert!(matches!(result, Err(CheckError::NotConcreteRelease { .. })));
}

#[test]
fn unlocatable_candidates_fail_without_request() {
    let r = concrete("4.1.0", "repo@//[");
    let (seen, result) = drive(&r, |_| true);
    assert!(seen.is_empty());
    match result {
        Err(CheckError::DiscoveryExhausted { errors, .. }) => {
            assert_eq!(errors.len(), 9);
            assert!(matches!(errors[0], ProbeError::InvalidLocation { index: 1 }));
            assert!(matches!(errors[8], ProbeError::InvalidLocation { index: 9 }));
        }
        other => panic!("unexpected {:?}", other),
    }
}

#[test]
fn discovery_reports_release_facts() {
    let d = Discovery::start(&concrete("4.3.0+amd64", "reg/x@sha256:ee")).unwrap();
    assert_eq!(d.version(), "4.3.0+amd64");
    assert_eq!(d.payload(), "reg/x@sha256:ee");
    assert_eq!(d.digest(), "sha256:ee");
    assert!(!d.is_done());
}

fn failed(version: &str) -> Result<(), CheckError> {
    Err(CheckError::NotConcreteRelease { version: version.to_string() })
}

fn versions(failures: &[CheckError]) -> Vec<String> {
    failures
        .iter()
        .map(|f| match f {
            CheckError::NotConcreteRelease { version } => version.clone(),
            other => panic!("unexpected {:?}", other),
        })
        .collect()
}

/// Completes slots in the given order with per-slot outcomes.
fn collect(order: &[usize], outcomes: &[Option<&str>]) -> Result<(), Vec<CheckError>> {
    let mut c = Collector::new(outcomes.len());
    for &slot in order {
        assert!(!c.is_completed(slot));
        let outcome = match outcomes[slot] {
            None => Ok(()),
            Some(v) => failed(v),
        };
        c.complete(slot, outcome);
    }
    assert!(c.is_full());
    c.finish()
}

#[test]
fn failures_follow_submission_order() {
    // B completes first, C last.
    let r = collect(&[1, 0, 2], &[Some("A"), Some("B"), Some("C")]);
    assert_eq!(versions(&r.unwrap_err()), vec!["A", "B", "C"]);
    let r = collect(&[2, 1, 0], &[Some("A"), Some("B"), Some("C")]);
    assert_eq!(versions(&r.unwrap_err()), vec!["A", "B", "C"]);
}

#[test]
fn earlier_failure_does_not_hide_later() {
    let r = collect(&[0, 1, 2], &[Some("A"), None, Some("C")]);
    assert_eq!(versions(&r.unwrap_err()), vec!["A", "C"]);
}

#[test]
fn repeated_batch_gives_same_result() {
    let outcomes = [None, Some("B"), None, Some("D")];
    let first = collect(&[3, 0, 2, 1], &outcomes);
    let second = collect(&[1, 2, 0, 3], &outcomes);
    assert_eq!(versions(&first.unwrap_err()), versions(&second.unwrap_err()));
    assert!(collect(&[1, 0], &[None, None]).is_ok());
    assert!(collect(&[0, 1], &[None, None]).is_ok());
}

#[test]
fn collector_tracks_completion() {
    let mut c = Collector::new(2);
    assert_eq!(c.len(), 2);
    assert!(!c.is_full());
    c.complete(1, Ok(()));
    assert!(c.is_completed(1));
    assert!(!c.is_completed(0));
    assert!(!c.is_full());
    c.complete(0, Ok(()));
    assert!(c.is_full());
    assert!(Collector::new(0).finish().is_ok());
}
