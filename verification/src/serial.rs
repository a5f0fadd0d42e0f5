//! What is written to a serial port for a scanned code.

use vstd::prelude::*;
use crate::Suffix;

verus! {

/// The bytes' text for a code on a serial line: the code, then CR LF for
/// Enter, a tab for Tab, nothing for no key.
pub open spec fn serial_text(text: Seq<char>, suffix: Suffix) -> Seq<char> {
    match suffix {
        Suffix::Enter => text + "\r\n"@,
        Suffix::Tab => text + "\t"@,
        Suffix::NoKey => text,
    }
}

/// The text written to the serial port for a code and a suffix.
pub fn serial_payload(text: &str, suffix: Suffix) -> (out: String)
    ensures
        out@ == serial_text(text@, suffix),
{
    let mut out = String::from_str(text);
    match suffix {
        Suffix::Enter => out.append("\r\n"),
        Suffix::Tab => out.append("\t"),
        Suffix::NoKey => {},
    }
    out
}

} // verus!
