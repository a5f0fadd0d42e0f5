//! The lines the terminal mode prints.

use vstd::prelude::*;
use crate::config::{Config, opt_view};
use crate::qr::{qr_terminal_picture, terminal_qr};
use crate::text::push_char;
use crate::url::{build_scanner_url, scanner_url_spec};

verus! {

/// The decimal digit for `d` (0 to 9).
pub open spec fn digit_char(d: int) -> char {
    if d == 0 { '0' }
    else if d == 1 { '1' }
    else if d == 2 { '2' }
    else if d == 3 { '3' }
    else if d == 4 { '4' }
    else if d == 5 { '5' }
    else if d == 6 { '6' }
    else if d == 7 { '7' }
    else if d == 8 { '8' }
    else { '9' }
}

/// The decimal representation of `n`, without leading zeros.
pub open spec fn decimal(n: nat) -> Seq<char>
    decreases n,
{
    if n < 10 {
        seq![digit_char(n as int)]
    } else {
        decimal(n / 10).push(digit_char((n % 10) as int))
    }
}

/// `n` in decimal, padded with zeros to at least two digits (`{:02}`).
pub open spec fn two_digits(n: nat) -> Seq<char> {
    if n < 10 {
        seq!['0', digit_char(n as int)]
    } else {
        decimal(n)
    }
}

fn digit(d: u64) -> (c: char)
    requires
        d < 10,
    ensures
        c == digit_char(d as int),
{
    if d == 0 { '0' }
    else if d == 1 { '1' }
    else if d == 2 { '2' }
    else if d == 3 { '3' }
    else if d == 4 { '4' }
    else if d == 5 { '5' }
    else if d == 6 { '6' }
    else if d == 7 { '7' }
    else if d == 8 { '8' }
    else { '9' }
}

/// Appends the decimal representation of `n`.
pub fn push_decimal(out: &mut String, n: u64)
    ensures
        final(out)@ == old(out)@ + decimal(n as nat),
    decreases n,
{
    if n < 10 {
        push_char(out, digit(n));
    } else {
        push_decimal(out, n / 10);
        push_char(out, digit(n % 10));
    }
}

/// Appends `n` padded to two digits.
pub fn push_two_digits(out: &mut String, n: u64)
    ensures
        final(out)@ == old(out)@ + two_digits(n as nat),
{
    if n < 10 {
        push_char(out, '0');
        push_char(out, digit(n));
    } else {
        push_decimal(out, n);
    }
}

/// The log line of an accepted scan, `seconds` after start:
/// `[hh:mm:ss] code`, hours not wrapped.
pub open spec fn scan_line(seconds: nat, code: Seq<char>) -> Seq<char> {
    "["@ + two_digits(seconds / 3600) + ":"@ + two_digits((seconds / 60) % 60) + ":"@
        + two_digits(seconds % 60) + "] "@ + code
}

/// The log line of an accepted scan.
pub fn scan_log_line(seconds: u64, code: &str) -> (line: String)
    ensures
        line@ == scan_line(seconds as nat, code@),
{
    let mut line = String::from_str("[");
    push_two_digits(&mut line, seconds / 3600);
    line.append(":");
    push_two_digits(&mut line, (seconds / 60) % 60);
    line.append(":");
    push_two_digits(&mut line, seconds % 60);
    line.append("] ");
    line.append(code);
    line
}

/// The line printed for an ignored duplicate.
pub fn dup_ignored_line(code: &str) -> (line: String)
    ensures
        line@ == "(dup ignored: "@ + code@ + ")"@,
{
    let mut line = String::from_str("(dup ignored: ");
    line.append(code);
    line.append(")");
    line
}

/// The hint shown when no site URL is known.
pub const TERMINAL_TIP: &'static str = "Tip: keyboard --terminal https://filirom1.github.io/barcode-keyboard";

/// The last line of the start-up banner.
pub const WAITING_LINE: &'static str = "Waiting for barcode scans…";

/// The start-up banner: with a site URL, the scanner URL, a blank line and
/// the QR code of the URL (when it can be encoded); without one, the
/// endpoint ID, a blank line, a tip and a blank line; then the waiting line.
pub fn startup_lines(base_url: &str, endpoint_id: &str, cfg: &Config) -> (lines: Vec<String>)
    ensures
        base_url@.len() > 0 ==> ({
            let url = scanner_url_spec(base_url@, endpoint_id@, opt_view(cfg.formats),
                cfg.vibrate, cfg.camera, cfg.torch);
            let picture = qr_terminal_picture(vstd::utf8::encode_utf8(url));
            &&& lines@.len() == if picture is Some { 4nat } else { 3nat }
            &&& lines@[0]@ == "Scanner URL: "@ + url
            &&& lines@[1]@ == Seq::<char>::empty()
            &&& picture matches Some(p) ==> lines@[2]@ == p
            &&& lines@.last()@ == WAITING_LINE@
        }),
        base_url@.len() == 0 ==> ({
            &&& lines@.len() == 5
            &&& lines@[0]@ == "Endpoint ID: "@ + endpoint_id@
            &&& lines@[1]@ == Seq::<char>::empty()
            &&& lines@[2]@ == TERMINAL_TIP@
            &&& lines@[3]@ == Seq::<char>::empty()
            &&& lines@[4]@ == WAITING_LINE@
        }),
{
    let mut lines: Vec<String> = Vec::new();
    if base_url.unicode_len() != 0 {
        let url = build_scanner_url(base_url, endpoint_id, cfg);
        let mut first = String::from_str("Scanner URL: ");
        first.append(url.as_str());
        lines.push(first);
        lines.push(String::new());
        match terminal_qr(url.as_str()) {
            Some(picture) => lines.push(picture),
            None => {},
        }
    } else {
        let mut first = String::from_str("Endpoint ID: ");
        first.append(endpoint_id);
        lines.push(first);
        lines.push(String::new());
        lines.push(String::from_str(TERMINAL_TIP));
        lines.push(String::new());
    }
    lines.push(String::from_str(WAITING_LINE));
    lines
}

} // verus!
