//! The list of codes received in the desktop app's window.

use vstd::prelude::*;
use crate::config::Config;
use crate::dedup::DedupFilter;
use crate::inject::{delivery, typed_text, transformed, Delivery};

verus! {

/// The lines joined with line feeds between them.
pub open spec fn join_lines(lines: Seq<Seq<char>>) -> Seq<char>
    decreases lines.len(),
{
    if lines.len() == 0 {
        Seq::<char>::empty()
    } else if lines.len() == 1 {
        lines[0]
    } else {
        join_lines(lines.drop_last()) + seq!['\n'] + lines.last()
    }
}

/// The codes received in this session, newest first.
pub struct ScanHistory {
    codes: Vec<String>,
}

impl ScanHistory {
    /// The codes, newest first.
    pub closed spec fn view(&self) -> Seq<Seq<char>> {
        self.codes@.map_values(|c: String| c@)
    }

    /// An empty history.
    pub fn new() -> (h: Self)
        ensures
            h.view() == Seq::<Seq<char>>::empty(),
    {
        let h = ScanHistory { codes: Vec::new() };
        assert(h.view() =~= Seq::<Seq<char>>::empty());
        h
    }

    /// Puts a newly received code in front.
    pub fn add(&mut self, code: String)
        ensures
            final(self).view() == seq![code@] + old(self).view(),
    {
        self.codes.insert(0, code);
        assert(self.view() =~= seq![code@] + old(self).view());
    }

    /// Forgets every code.
    pub fn clear(&mut self)
        ensures
            final(self).view() == Seq::<Seq<char>>::empty(),
    {
        self.codes.clear();
        assert(self.view() =~= Seq::<Seq<char>>::empty());
    }

    /// Number of codes received.
    pub fn len(&self) -> (n: usize)
        ensures
            n == self.view().len(),
    {
        self.codes.len()
    }

    /// The codes, newest first.
    pub fn codes(&self) -> (c: &Vec<String>)
        ensures
            c@.map_values(|s: String| s@) == self.view(),
    {
        &self.codes
    }

    /// The text "Copy all" puts on the clipboard: the codes oldest first,
    /// one per line.
    pub fn copy_all_text(&self) -> (t: String)
        ensures
            t@ == join_lines(self.view().reverse()),
    {
        let n = self.codes.len();
        let mut out = String::new();
        let ghost v = self.view();
        let mut k: usize = 0;
        while k < n
            invariant
                n == self.codes@.len(),
                v == self.view(),
                k <= n,
                out@ == join_lines(v.reverse().take(k as int)),
            decreases n - k,
        {
            let code = &self.codes[n - 1 - k];
            proof {
                let taken = v.reverse().take(k + 1);
                assert(taken.drop_last() =~= v.reverse().take(k as int));
                assert(taken.last() == code@);
                reveal_strlit("\n");
                assert("\n"@ =~= seq!['\n']);
            }
            if k > 0 {
                out.append("\n");
            }
            out.append(code.as_str());
            k = k + 1;
        }
        assert(v.reverse().take(n as int) =~= v.reverse());
        out
    }
}

} // verus!

verus! {

/// "Copy all" lists the codes in the order they arrived: after adding a
/// code, the copied text is the earlier text, a line feed and the code (or
/// just the code when the history was empty).
pub proof fn lemma_copy_all_after_add(history: Seq<Seq<char>>, code: Seq<char>)
    ensures
        join_lines((seq![code] + history).reverse()) == if history.len() == 0 {
            code
        } else {
            join_lines(history.reverse()) + seq!['\n'] + code
        },
{
    let r = (seq![code] + history).reverse();
    assert(r.drop_last() =~= history.reverse());
    assert(r.last() == code);
    if history.len() == 0 {
        assert(r =~= seq![code]);
    }
}

} // verus!

verus! {

/// What to do with a received code.
#[derive(Debug)]
pub enum ScanAction {
    /// A duplicate: neither delivered nor listed.
    Ignore,
    /// Type this text into the focused window.
    Type(String),
    /// Put this text on the clipboard (copy-only mode).
    Copy(String),
}

/// Whether `a` delivers `code` as the configuration asks: the prefix and
/// the rewritten code, typed, or copied in copy-only mode.
pub open spec fn delivers(a: ScanAction, cfg: Config, code: Seq<char>) -> bool {
    let text = cfg.prefix@ + transformed(code, cfg.transform);
    match a {
        ScanAction::Type(t) => !cfg.copy_only && t@ == text,
        ScanAction::Copy(t) => cfg.copy_only && t@ == text,
        ScanAction::Ignore => false,
    }
}

/// One received code at time `now`: a duplicate is ignored and changes
/// nothing; any other code is recorded at `now` and delivered.
pub fn handle_scan_at(dedup: &mut DedupFilter, cfg: &Config, code: String, now: u128) -> (a: ScanAction)
    ensures
        old(dedup).view().is_dup(code@, now) ==> a is Ignore && final(dedup).view() == old(dedup).view(),
        !old(dedup).view().is_dup(code@, now) ==> delivers(a, *cfg, code@)
            && final(dedup).view() == old(dedup).view().after_record(code@, now),
{
    let text = typed_text(code.as_str(), cfg);
    if !dedup.accept_at(code, now) {
        return ScanAction::Ignore;
    }
    match delivery(cfg) {
        Delivery::Keystrokes => ScanAction::Type(text),
        Delivery::Clipboard => ScanAction::Copy(text),
    }
}

/// `handle_scan_at` with the time read once from the filter's clock.
pub fn handle_scan(dedup: &mut DedupFilter, cfg: &Config, code: String) -> (a: ScanAction)
    ensures
        exists|now: u128| {
            &&& now >= old(dedup).view().latest()
            &&& old(dedup).view().is_dup(code@, now) ==> a is Ignore && final(dedup).view() == old(dedup).view()
            &&& !old(dedup).view().is_dup(code@, now) ==> delivers(a, *cfg, code@)
                && final(dedup).view() == old(dedup).view().after_record(code@, now)
        },
{
    let now = dedup.now();
    handle_scan_at(dedup, cfg, code, now)
}

/// One received code at time `now` in the window: a duplicate is ignored
/// and changes nothing; any other code is recorded at `now`, delivered and
/// listed first in the history.
pub fn handle_listed_scan_at(dedup: &mut DedupFilter, history: &mut ScanHistory, cfg: &Config,
    code: String, now: u128) -> (a: ScanAction)
    ensures
        old(dedup).view().is_dup(code@, now) ==> a is Ignore && final(dedup).view() == old(dedup).view()
            && final(history).view() == old(history).view(),
        !old(dedup).view().is_dup(code@, now) ==> delivers(a, *cfg, code@)
            && final(dedup).view() == old(dedup).view().after_record(code@, now)
            && final(history).view() == seq![code@] + old(history).view(),
{
    let listed = code.clone();
    let a = handle_scan_at(dedup, cfg, code, now);
    match a {
        ScanAction::Ignore => {},
        _ => history.add(listed),
    }
    a
}

/// `handle_listed_scan_at` with the time read once from the filter's clock.
pub fn handle_listed_scan(dedup: &mut DedupFilter, history: &mut ScanHistory, cfg: &Config,
    code: String) -> (a: ScanAction)
    ensures
        exists|now: u128| {
            &&& now >= old(dedup).view().latest()
            &&& old(dedup).view().is_dup(code@, now) ==> a is Ignore && final(dedup).view() == old(dedup).view()
                && final(history).view() == old(history).view()
            &&& !old(dedup).view().is_dup(code@, now) ==> delivers(a, *cfg, code@)
                && final(dedup).view() == old(dedup).view().after_record(code@, now)
                && final(history).view() == seq![code@] + old(history).view()
        },
{
    let now = dedup.now();
    handle_listed_scan_at(dedup, history, cfg, code, now)
}

} // verus!
