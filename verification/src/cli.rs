//! Command-line argument handling: exactly three positional arguments
//! (station identifier, TCP endpoint, MTU), and the usage message shown when
//! the count is wrong.

use vstd::prelude::*;
use crate::numparse::{is_i32_literal, int_literal_value, parse_i32};

verus! {

/// The validated invocation: everything the bridge needs from the command
/// line.
#[derive(Clone, PartialEq, Eq, Debug)]
pub struct Config {
    /// Station identifier (callsign with optional secondary station suffix),
    /// passed through unmodified to the attach facility.
    pub callsign: String,
    /// `HOST:PORT` endpoint of the remote modem-control application, passed
    /// through unmodified to the connection step.
    pub endpoint: String,
    /// Maximum transmission unit of the interface.
    pub mtu: i32,
}

/// Why an invocation was rejected.
#[derive(Clone, Copy, PartialEq, Eq, Debug)]
pub enum CliError {
    /// The argument count is not exactly four (program name plus three):
    /// print the usage message and exit with status one.
    Usage,
    /// The MTU argument does not denote an `i32`: abort before any
    /// pseudo-terminal allocation.
    BadMtu,
}

/// Validates the raw argument vector (program name first). With exactly
/// three arguments and a well-formed MTU it yields the configuration; a
/// wrong count is a usage error, checked before the MTU is even looked at.
pub fn parse_args(args: &Vec<String>) -> (r: Result<Config, CliError>)
    ensures
        match r {
            Ok(c) => args@.len() == 4 && is_i32_literal(args@[3]@) && c.callsign@ == args@[1]@
                && c.endpoint@ == args@[2]@ && c.mtu as int == int_literal_value(args@[3]@),
            Err(CliError::Usage) => args@.len() != 4,
            Err(CliError::BadMtu) => args@.len() == 4 && !is_i32_literal(args@[3]@),
        },
{
    if args.len() != 4 {
        return Err(CliError::Usage);
    }
    let mtu = match parse_i32(args[3].as_str()) {
        Ok(v) => v,
        Err(_) => {
            return Err(CliError::BadMtu);
        },
    };
    Ok(Config { callsign: args[1].clone(), endpoint: args[2].clone(), mtu })
}

/// The usage message, line by line: program name, usage line, an example.
/// The caller prints these to its diagnostic stream and exits with status
/// one.
pub fn usage_lines() -> (lines: Vec<String>)
    ensures
        lines@.len() == 6,
        lines@[0]@ == "fldigi-kissattach"@,
        lines@[1]@ == " Usage:"@,
        lines@[2]@ == " fldigi-kissattach CALLSIGN-SSID FLDIGI_IP:FLDIGI_PORT MTU"@,
        lines@[3]@ == ""@,
        lines@[4]@ == " Example:"@,
        lines@[5]@ == " fldigi-kissattach HB9EGM-1 127.0.0.1:7342 120"@,
{
    let mut lines: Vec<String> = Vec::new();
    lines.push("fldigi-kissattach".to_owned());
    lines.push(" Usage:".to_owned());
    lines.push(" fldigi-kissattach CALLSIGN-SSID FLDIGI_IP:FLDIGI_PORT MTU".to_owned());
    lines.push("".to_owned());
    lines.push(" Example:".to_owned());
    lines.push(" fldigi-kissattach HB9EGM-1 127.0.0.1:7342 120".to_owned());
    lines
}

} // verus!
