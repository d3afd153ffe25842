//! Diagnostic output for sample plugins.

use std::io::Write;
use vstd::prelude::*;

verus! {

/// Relies on `std::io::Stdout::write_fmt`, through `writeln`: prints the
/// given line to standard output. A write failure is ignored; plugin
/// output is diagnostic only.
#[verifier::external_body]
pub fn print_line(msg: &str) {
    let _ = writeln!(std::io::stdout(), "{}", msg);
}

} // verus!
