//! Keystroke injection through the Windows input API.

pub mod windows;
