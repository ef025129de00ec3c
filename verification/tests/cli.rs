use fldigi_kissattach::cli::{parse_args, usage_lines, CliError};

fn args_of(parts: &[&str]) -> Vec<String> {
    parts.iter().map(|p| p.to_string()).collect()
}

#[test]
fn accepts_example_invocation() {
    let args = args_of(&["fldigi-kissattach", "N0CALL-1", "127.0.0.1:7342", "120"]);
    let config = parse_args(&args).unwrap();
    assert_eq!(config.callsign, "N0CALL-1");
    assert_eq!(config.endpoint, "127.0.0.1:7342");
    assert_eq!(config.mtu, 120);
}

#[test]
fn rejects_no_arguments() {
    let args = args_of(&["fldigi-kissattach"]);
    assert_eq!(parse_args(&args), Err(CliError::Usage));
}

#[test]
fn rejects_empty_argument_vector() {
    let args: Vec<String> = Vec::new();
    assert_eq!(parse_args(&args), Err(CliError::Usage));
}

#[test]
fn rejects_one_argument() {
    let args = args_of(&["fldigi-kissattach", "N0CALL-1"]);
    assert_eq!(parse_args(&args), Err(CliError::Usage));
}

#[test]
fn rejects_two_arguments() {
    let args = args_of(&["fldigi-kissattach", "N0CALL-1", "127.0.0.1:7342"]);
    assert_eq!(parse_args(&args), Err(CliError::Usage));
}

#[test]
fn rejects_four_arguments() {
    let args = args_of(&[
        "fldigi-kissattach",
        "N0CALL-1",
        "127.0.0.1:7342",
        "120",
        "extra",
    ]);
    assert_eq!(parse_args(&args), Err(CliError::Usage));
}

#[test]
fn rejects_unparsable_mtu() {
    let args = args_of(&["fldigi-kissattach", "N0CALL-1", "127.0.0.1:7342", "abc"]);
    assert_eq!(parse_args(&args), Err(CliError::BadMtu));
}

#[test]
fn rejects_out_of_range_mtu() {
    let args = args_of(&[
        "fldigi-kissattach",
        "N0CALL-1",
        "127.0.0.1:7342",
        "2147483648",
    ]);
    assert_eq!(parse_args(&args), Err(CliError::BadMtu));
}

#[test]
fn accepts_negative_mtu_digits() {
    // Range of the MTU is not validated beyond fitting in an i32.
    let args = args_of(&["fldigi-kissattach", "N0CALL-1", "127.0.0.1:7342", "-1"]);
    let config = parse_args(&args).unwrap();
    assert_eq!(config.mtu, -1);
}

#[test]
fn usage_message_lines() {
    let lines = usage_lines();
    assert_eq!(
        lines,
        vec![
            "fldigi-kissattach",
            " Usage:",
            " fldigi-kissattach CALLSIGN-SSID FLDIGI_IP:FLDIGI_PORT MTU",
            "",
            " Example:",
            " fldigi-kissattach HB9EGM-1 127.0.0.1:7342 120",
        ]
    );
}
