use fldigi_kissattach::attach::{attach_params, attach_succeeded, ATTACH_SPEED};

#[test]
fn speed_policy_is_9600_baud() {
    assert_eq!(ATTACH_SPEED, 9600);
}

#[test]
fn params_for_example_mtu() {
    let p = attach_params(120);
    assert_eq!(p.speed, 9600);
    assert_eq!(p.mtu, 120);
    assert!(p.allow_broadcast);
}

#[test]
fn params_keep_any_mtu() {
    let p = attach_params(-3);
    assert_eq!(p.mtu, -3);
    assert_eq!(p.speed, 9600);
    assert!(p.allow_broadcast);
}

#[test]
fn zero_result_is_failure() {
    assert!(!attach_succeeded(0));
}

#[test]
fn nonzero_results_are_success() {
    assert!(attach_succeeded(1));
    assert!(attach_succeeded(-1));
    assert!(attach_succeeded(7342));
}
