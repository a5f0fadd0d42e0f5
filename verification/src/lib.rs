//! Verified core of the barcode keyboard: scanner preferences, the scanner
//! URL, keystroke text, duplicate filtering and QR image layout.

pub mod config;
pub mod dedup;
pub mod formats;
pub mod hid;
pub mod inject;
pub mod lang;
pub mod qr;
pub mod serial;
pub mod session;
pub mod terminal;
pub mod text;
pub mod url;

use vstd::prelude::*;

verus! {

/// Key pressed after a scanned code has been typed.
#[derive(Debug, Clone, Copy, PartialEq, Eq, Structural)]
pub enum Suffix {
    Enter,
    Tab,
    NoKey,
}

impl Default for Suffix {
    fn default() -> (s: Self)
        ensures
            s == Suffix::Enter,
    {
        Suffix::Enter
    }
}

} // verus!
