//! User preferences: what the desktop app stores and what it encodes into
//! the scanner URL.

use vstd::prelude::*;
use crate::Suffix;
use crate::formats::{Formats, default_formats, format_param, parse_formats, lemma_param_roundtrip};

verus! {

/// Which phone camera the scanner opens.
#[derive(Debug, Clone, Copy, PartialEq, Eq, Structural)]
pub enum Camera {
    Rear,
    Front,
}

impl Default for Camera {
    fn default() -> (c: Self)
        ensures
            c == Camera::Rear,
    {
        Camera::Rear
    }
}

/// What counts as a repeated scan on the PC side.
#[derive(Debug, Clone, Copy, PartialEq, Eq, Structural)]
pub enum DedupMode {
    /// Same code as the immediately previous scan.
    Consecutive,
    /// Same code as any scan of the session.
    Any,
    /// Every scan is accepted.
    Off,
}

impl Default for DedupMode {
    fn default() -> (m: Self)
        ensures
            m == DedupMode::Consecutive,
    {
        DedupMode::Consecutive
    }
}

/// How a scanned code is rewritten before it is typed.
#[derive(Debug, Clone, Copy, PartialEq, Eq, Structural)]
pub enum Transform {
    /// Typed as scanned.
    Keep,
    Upper,
    Lower,
    Trim,
}

impl Default for Transform {
    fn default() -> (t: Self)
        ensures
            t == Transform::Keep,
    {
        Transform::Keep
    }
}

/// Default duplicate window, in seconds.
pub fn default_dedup_secs() -> (s: u64)
    ensures
        s == 10,
{
    10
}

/// Default of the flags that are on unless switched off.
pub fn default_true() -> (b: bool)
    ensures
        b,
{
    true
}

/// The persisted preferences of the desktop app.
#[derive(Debug)]
pub struct Config {
    /// Base URL of the site that serves the scanner page.
    pub url: String,
    /// Comma-separated format names; `None` means the scanner's defaults.
    pub formats: Option<String>,
    pub vibrate: bool,
    pub camera: Camera,
    pub torch: bool,
    pub suffix: Suffix,
    pub dedup_secs: u64,
    pub dedup_mode: DedupMode,
    pub prefix: String,
    pub transform: Transform,
    pub ignore_pattern: Option<String>,
    pub copy_only: bool,
}

/// The characters of an optional string.
pub open spec fn opt_view(s: Option<String>) -> Option<Seq<char>> {
    match s {
        Some(t) => Some(t@),
        None => None,
    }
}

impl Default for Config {
    /// Empty URL and prefix, default formats, vibration on, rear camera,
    /// torch off, Enter after each code, consecutive duplicates ignored for
    /// ten seconds, no transform, no ignore pattern, keystrokes typed.
    fn default() -> (c: Self)
        ensures
            c.url@ == Seq::<char>::empty(),
            c.formats is None,
            c.vibrate,
            c.camera == Camera::Rear,
            !c.torch,
            c.suffix == Suffix::Enter,
            c.dedup_secs == 10,
            c.dedup_mode == DedupMode::Consecutive,
            c.prefix@ == Seq::<char>::empty(),
            c.transform == Transform::Keep,
            c.ignore_pattern is None,
            !c.copy_only,
    {
        Config {
            url: String::new(),
            formats: None,
            vibrate: default_true(),
            camera: Camera::default(),
            torch: false,
            suffix: Suffix::default(),
            dedup_secs: default_dedup_secs(),
            dedup_mode: DedupMode::default(),
            prefix: String::new(),
            transform: Transform::default(),
            ignore_pattern: None,
            copy_only: false,
        }
    }
}

impl Config {
    /// Takes an edited site URL: a non-empty one replaces the configured
    /// URL (and the caller saves the configuration); an empty one is
    /// ignored. Returns whether the URL was taken.
    pub fn apply_site_url(&mut self, edited: &str) -> (taken: bool)
        ensures
            taken == (edited@.len() > 0),
            final(self).url@ == (if taken { edited@ } else { old(self).url@ }),
            final(self).formats == old(self).formats,
            final(self).vibrate == old(self).vibrate,
            final(self).camera == old(self).camera,
            final(self).torch == old(self).torch,
            final(self).suffix == old(self).suffix,
            final(self).dedup_secs == old(self).dedup_secs,
            final(self).dedup_mode == old(self).dedup_mode,
            final(self).prefix == old(self).prefix,
            final(self).transform == old(self).transform,
            final(self).ignore_pattern == old(self).ignore_pattern,
            final(self).copy_only == old(self).copy_only,
    {
        if edited.unicode_len() == 0 {
            return false;
        }
        self.url = String::from_str(edited);
        true
    }
}

/// The stored `formats` value for a selection: nothing for the default
/// selection, its comma-separated names otherwise.
pub open spec fn setting_for(f: Formats) -> Option<Seq<char>> {
    if f == default_formats() {
        None
    } else {
        Some(format_param(f))
    }
}

/// The selection that a stored `formats` value stands for.
pub open spec fn formats_from(setting: Option<Seq<char>>) -> Formats {
    match setting {
        Some(s) => parse_formats(s),
        None => default_formats(),
    }
}

/// The value to store in `Config::formats` for a selection.
pub fn formats_setting(f: &Formats) -> (r: Option<String>)
    ensures
        opt_view(r) == setting_for(*f),
{
    if f.is_default() {
        None
    } else {
        Some(f.to_param())
    }
}

/// The selection that `Config::formats` stands for.
pub fn formats_from_setting(setting: &Option<String>) -> (f: Formats)
    ensures
        f == formats_from(opt_view(*setting)),
{
    match setting {
        Some(s) => Formats::from_str(s.as_str()),
        None => Formats::default(),
    }
}

/// Storing a selection and reading the stored value back gives the same
/// selection.
pub proof fn lemma_setting_roundtrip(f: Formats)
    ensures
        formats_from(setting_for(f)) == f,
{
    lemma_param_roundtrip(f);
}

/// Name of the app's directory in the user's configuration directory.
pub const CONFIG_DIR_NAME: &'static str = "barcode-keyboard";

/// Name of the configuration file in that directory.
pub const CONFIG_FILE_NAME: &'static str = "config.json";

/// The path components of the app's configuration directory: the user's
/// configuration directory (the current one, `.`, when there is none),
/// then `barcode-keyboard`.
pub fn config_dir(base: Option<String>) -> (parts: Vec<String>)
    ensures
        parts@.len() == 2,
        parts@[0]@ == (match base {
            Some(b) => b@,
            None => "."@,
        }),
        parts@[1]@ == CONFIG_DIR_NAME@,
{
    let first = match base {
        Some(b) => b,
        None => String::from_str("."),
    };
    let mut parts: Vec<String> = Vec::new();
    parts.push(first);
    parts.push(String::from_str(CONFIG_DIR_NAME));
    parts
}

/// The path components of the configuration file: the configuration
/// directory's, then `config.json`.
pub fn config_file(base: Option<String>) -> (parts: Vec<String>)
    ensures
        parts@.len() == 3,
        parts@[0]@ == (match base {
            Some(b) => b@,
            None => "."@,
        }),
        parts@[1]@ == CONFIG_DIR_NAME@,
        parts@[2]@ == CONFIG_FILE_NAME@,
{
    let mut parts = config_dir(base);
    parts.push(String::from_str(CONFIG_FILE_NAME));
    parts
}

} // verus!
