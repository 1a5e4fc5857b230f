use mcenroe::fleet::collect_outcomes;
use mcenroe::fleet::outcome_of;
use mcenroe::fleet::HostDescriptor;
use mcenroe::session::SessionError;

fn host(name: &str, addr: [u8; 4]) -> HostDescriptor {
    HostDescriptor { name: String::from(name), addr }
}

#[test]
fn success_outcome_has_empty_message() {
    let outcome = outcome_of(host("alpha", [10, 0, 0, 1]), Ok(()));
    assert_eq!(outcome.name, "alpha");
    assert_eq!(outcome.addr, [10, 0, 0, 1]);
    assert!(outcome.success);
    assert_eq!(outcome.message, "");
}

#[test]
fn timeout_outcome_message() {
    let outcome = outcome_of(host("beta", [10, 0, 0, 2]), Err(SessionError::Timeout));
    assert!(!outcome.success);
    assert_eq!(outcome.message, "Connection failed: timeout");
}

#[test]
fn transport_outcome_message() {
    let error = SessionError::Transport(String::from("no route to host"));
    let outcome = outcome_of(host("gamma", [10, 0, 0, 3]), Err(error));
    assert!(!outcome.success);
    assert_eq!(outcome.message, "Connection failed: no route to host");
}

#[test]
fn internal_outcome_message() {
    let outcome = outcome_of(host("delta", [10, 0, 0, 4]), Err(SessionError::Internal));
    assert!(!outcome.success);
    assert_eq!(outcome.message, "Connection failed: internal encoding error");
}

#[test]
fn one_failing_host_leaves_the_others_untouched() {
    let hosts = vec![
        host("a", [192, 168, 0, 1]),
        host("b", [192, 168, 0, 2]),
        host("c", [192, 168, 0, 3]),
        host("d", [192, 168, 0, 4]),
    ];
    let results = vec![Ok(()), Err(SessionError::Timeout), Ok(()), Ok(())];
    let outcomes = collect_outcomes(hosts, results);
    assert_eq!(outcomes.len(), 4);
    let names: Vec<&str> = outcomes.iter().map(|o| o.name.as_str()).collect();
    assert_eq!(names, ["a", "b", "c", "d"]);
    let flags: Vec<bool> = outcomes.iter().map(|o| o.success).collect();
    assert_eq!(flags, [true, false, true, true]);
    assert_eq!(outcomes[1].message, "Connection failed: timeout");
    assert_eq!(outcomes[0].message, "");
}

#[test]
fn empty_fleet_yields_no_outcomes() {
    let outcomes = collect_outcomes(Vec::new(), Vec::new());
    assert!(outcomes.is_empty());
}
