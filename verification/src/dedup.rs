//! Suppression of repeated scans on the PC side.

use vstd::prelude::*;
use std::time::Instant;
use crate::config::{Config, DedupMode};
use crate::text::str_eq;

verus! {

/// `std::time::Instant`, a point on the monotonic clock.
#[verifier::external_type_specification]
#[verifier::external_body]
pub struct ExInstant(Instant);

/// `Instant::now`: the current time. Nothing is claimed of the value.
#[verifier::external_body]
fn instant_now() -> Instant {
    Instant::now()
}

/// `Instant::elapsed`, in nanoseconds (`Duration::as_nanos`): the time since
/// `t`. Nothing is claimed of the value, which depends on the clock.
#[verifier::external_body]
fn elapsed_nanos(t: &Instant) -> u128 {
    t.elapsed().as_nanos()
}

/// Nanoseconds from `then` to `now`; zero when `now` is not later (as
/// `Instant::elapsed`, which never goes below zero).
pub open spec fn elapsed_since(then: u128, now: u128) -> int {
    if now >= then { now - then } else { 0 }
}

/// Whether less than `secs` seconds passed from `then` to `now` (in
/// nanoseconds), as `elapsed < Duration::from_secs(secs)` decides.
pub open spec fn within_window(then: u128, now: u128, secs: u64) -> bool {
    elapsed_since(then, now) < secs * 1_000_000_000
}

/// What a duplicate filter remembers, as plain values. Times are
/// nanoseconds on the filter's own clock, which starts when it is made.
#[verifier::ext_equal]
pub struct DedupState {
    pub mode: DedupMode,
    /// Window in seconds; 0 disables the filter.
    pub secs: u64,
    /// The last recorded code and when it was recorded.
    pub last: Option<(Seq<char>, u128)>,
    /// Every code recorded while in `Any` mode.
    pub seen: Set<Seq<char>>,
}

impl DedupState {
    /// Whether `code`, scanned at time `now`, is a duplicate: never when
    /// the mode is `Off` or the window 0; in `Consecutive` mode when it is
    /// the last recorded code and less than the window has passed since;
    /// in `Any` mode when it was recorded before.
    pub open spec fn is_dup(self, code: Seq<char>, now: u128) -> bool {
        if self.mode == DedupMode::Off || self.secs == 0 {
            false
        } else {
            match self.mode {
                DedupMode::Consecutive => match self.last {
                    Some((prev, then)) => prev == code && within_window(then, now, self.secs),
                    None => false,
                },
                DedupMode::Any => self.seen.contains(code),
                DedupMode::Off => false,
            }
        }
    }

    /// When the last code was recorded (0 before any record).
    pub open spec fn latest(self) -> u128 {
        match self.last {
            Some((_, then)) => then,
            None => 0,
        }
    }

    /// The state after `code` has been recorded at time `now`.
    pub open spec fn after_record(self, code: Seq<char>, now: u128) -> DedupState {
        DedupState {
            mode: self.mode,
            secs: self.secs,
            last: Some((code, now)),
            seen: if self.mode == DedupMode::Any { self.seen.insert(code) } else { self.seen },
        }
    }
}

/// Decides whether a scanned code repeats an earlier one.
pub struct DedupFilter {
    mode: DedupMode,
    secs: u64,
    /// Origin of the filter's clock.
    start: Instant,
    /// The last recorded code and its time on the filter's clock.
    last: Option<(String, u128)>,
    seen: Vec<String>,
}

impl DedupFilter {
    /// No code is remembered twice.
    #[verifier::type_invariant]
    spec fn seen_distinct(self) -> bool {
        forall|i: int, j: int| 0 <= i < j < self.seen@.len() ==> self.seen@[i]@ != self.seen@[j]@
    }

    /// The filter's state.
    pub closed spec fn view(self) -> DedupState {
        DedupState {
            mode: self.mode,
            secs: self.secs,
            last: match self.last {
                Some((code, at)) => Some((code@, at)),
                None => None,
            },
            seen: Set::new(|c: Seq<char>| exists|i: int| 0 <= i < self.seen@.len() && self.seen@[i]@ == c),
        }
    }

    /// A fresh filter with the configured mode and window, remembering
    /// nothing; its clock starts now.
    pub fn from_cfg(cfg: &Config) -> (f: Self)
        ensures
            f.view() == (DedupState {
                mode: cfg.dedup_mode,
                secs: cfg.dedup_secs,
                last: None,
                seen: Set::empty(),
            }),
    {
        let f = DedupFilter {
            mode: cfg.dedup_mode,
            secs: cfg.dedup_secs,
            start: instant_now(),
            last: None,
            seen: Vec::new(),
        };
        assert(f.view().seen =~= Set::<Seq<char>>::empty());
        f
    }

    /// The time now on the filter's clock, in nanoseconds since it was
    /// made: the monotonic clock's reading, never earlier than the last
    /// recorded scan. Nothing more is claimed of the value, which depends on
    /// the clock.
    pub fn now(&self) -> (now: u128)
        ensures
            now >= self.view().latest(),
    {
        let reading = elapsed_nanos(&self.start);
        match &self.last {
            Some((_, then)) => if *then > reading { *then } else { reading },
            None => reading,
        }
    }

    /// Whether `code` was recorded while in `Any` mode.
    fn has_seen(&self, code: &str) -> (r: bool)
        ensures
            r == self.view().seen.contains(code@),
    {
        let n = self.seen.len();
        for i in 0..n
            invariant
                n == self.seen@.len(),
                forall|j: int| 0 <= j < i ==> self.seen@[j]@ != code@,
        {
            if str_eq(self.seen[i].as_str(), code) {
                assert(self.view().seen.contains(code@));
                return true;
            }
        }
        false
    }

    /// Whether `code`, scanned at time `now` on the filter's clock, is a
    /// duplicate (see `DedupState::is_dup`).
    pub fn is_dup_at(&self, code: &str, now: u128) -> (r: bool)
        ensures
            r == self.view().is_dup(code@, now),
    {
        if self.mode == DedupMode::Off || self.secs == 0 {
            return false;
        }
        match self.mode {
            DedupMode::Consecutive => match &self.last {
                Some((prev, then)) => {
                    let window: u128 = (self.secs as u128) * 1_000_000_000u128;
                    let elapsed: u128 = if now >= *then { now - *then } else { 0 };
                    str_eq(prev.as_str(), code) && elapsed < window
                },
                None => false,
            },
            DedupMode::Any => self.has_seen(code),
            DedupMode::Off => false,
        }
    }

    /// Whether `code` is a duplicate now: `is_dup_at` with the time read
    /// from the clock.
    pub fn is_dup(&self, code: &str) -> (r: bool)
        ensures
            exists|now: u128| now >= self.view().latest() && r == self.view().is_dup(code@, now),
            self.view().mode == DedupMode::Off || self.view().secs == 0 ==> !r,
            self.view().mode == DedupMode::Any ==> r == (self.view().secs > 0
                && self.view().seen.contains(code@)),
            self.view().mode == DedupMode::Consecutive ==> (r ==> (self.view().last matches Some((c, _)) && c == code@)),
    {
        let now = self.now();
        self.is_dup_at(code, now)
    }

    /// Remembers `code` as the last scan, recorded at time `now` on the
    /// filter's clock, and, in `Any` mode, among the codes seen.
    pub fn record_at(&mut self, code: String, now: u128)
        ensures
            final(self).view() == old(self).view().after_record(code@, now),
    {
        proof {
            use_type_invariant(&*self);
        }
        let ghost old_seen = self.view().seen;
        if self.mode == DedupMode::Any {
            if !self.has_seen(code.as_str()) {
                let mut seen = self.seen.clone();
                assert(forall|i: int| 0 <= i < seen@.len() ==> seen@[i] == self.seen@[i]);
                let ghost before = self.seen@;
                seen.push(code.clone());
                proof {
                    assert forall|i: int, j: int| 0 <= i < j < seen@.len() implies seen@[i]@ != seen@[j]@ by {
                        if j == before.len() {
                            assert(old_seen.contains(before[i]@));
                        }
                    }
                }
                self.seen = seen;
                proof {
                    assert forall|c: Seq<char>| #[trigger] self.view().seen.contains(c)
                        implies old_seen.insert(code@).contains(c) by {
                        let i = choose|i: int| 0 <= i < self.seen@.len() && self.seen@[i]@ == c;
                        if i < before.len() {
                            assert(old_seen.contains(before[i]@));
                        }
                    }
                    assert forall|c: Seq<char>| #[trigger] old_seen.insert(code@).contains(c)
                        implies self.view().seen.contains(c) by {
                        if c == code@ {
                            assert(self.seen@[before.len() as int]@ == c);
                        } else {
                            let i = choose|i: int| 0 <= i < before.len() && before[i]@ == c;
                            assert(self.seen@[i]@ == c);
                        }
                    }
                }
            }
            assert(self.view().seen =~= old_seen.insert(code@));
        }
        self.last = Some((code, now));
        assert(self.view().seen =~= (if self.mode == DedupMode::Any { old_seen.insert(self.view().last.unwrap().0) } else { old_seen }));
    }

    /// Remembers `code` as the last scan, at the current time, and, in
    /// `Any` mode, among the codes seen: `record_at` with the time read
    /// from the clock.
    pub fn record(&mut self, code: String)
        ensures
            exists|now: u128| now >= old(self).view().latest()
                && final(self).view() == old(self).view().after_record(code@, now),
    {
        let now = self.now();
        self.record_at(code, now);
    }

    /// Handles a scan at time `now`: a duplicate is refused and changes
    /// nothing; any other code is accepted and recorded at `now`. Returns
    /// whether the code is to be delivered.
    pub fn accept_at(&mut self, code: String, now: u128) -> (accepted: bool)
        ensures
            accepted == !old(self).view().is_dup(code@, now),
            final(self).view() == if accepted {
                old(self).view().after_record(code@, now)
            } else {
                old(self).view()
            },
    {
        if self.is_dup_at(code.as_str(), now) {
            false
        } else {
            self.record_at(code, now);
            true
        }
    }

    /// Handles a scan now: `accept_at` with the time read once from the
    /// clock. A duplicate is never recorded; an accepted code is recorded
    /// when it is accepted, before the caller delivers it.
    pub fn accept(&mut self, code: String) -> (accepted: bool)
        ensures
            exists|now: u128| {
                &&& now >= old(self).view().latest()
                &&& accepted == !old(self).view().is_dup(code@, now)
                &&& final(self).view() == if accepted {
                    old(self).view().after_record(code@, now)
                } else {
                    old(self).view()
                }
            },
    {
        let now = self.now();
        self.accept_at(code, now)
    }
}

} // verus!

verus! {

/// A filter that has recorded nothing reports no duplicate: the first scan
/// of a session is always typed.
pub proof fn lemma_first_scan_accepted(s: DedupState, code: Seq<char>, now: u128)
    requires
        s.last is None,
        s.seen == Set::<Seq<char>>::empty(),
    ensures
        !s.is_dup(code, now),
{
}

/// With the mode `Off` or a window of 0 seconds no scan is ever a
/// duplicate, whatever was recorded before.
pub proof fn lemma_disabled_never_dup(s: DedupState, recorded: Seq<char>, at: u128, code: Seq<char>, now: u128)
    requires
        s.mode == DedupMode::Off || s.secs == 0,
    ensures
        !s.is_dup(code, now),
        !s.after_record(recorded, at).is_dup(code, now),
{
}

/// In `Consecutive` mode, right after `recorded` was recorded at `at`, a
/// code scanned at `now` is a duplicate exactly when it is the same code,
/// the window is not 0 and less than `secs` seconds have passed since `at`.
pub proof fn lemma_consecutive_repeats_last(s: DedupState, recorded: Seq<char>, at: u128,
    code: Seq<char>, now: u128)
    requires
        s.mode == DedupMode::Consecutive,
    ensures
        s.after_record(recorded, at).is_dup(code, now) == (code == recorded && s.secs > 0
            && elapsed_since(at, now) < s.secs * 1_000_000_000),
{
}

/// In `Any` mode with a non-zero window a recorded code stays a duplicate
/// for the rest of the session, whatever is recorded after it and however
/// long ago it was.
pub proof fn lemma_any_remembers(s: DedupState, recorded: Seq<char>, at: u128, later: Seq<char>,
    later_at: u128, now: u128)
    requires
        s.mode == DedupMode::Any,
        s.secs > 0,
    ensures
        s.after_record(recorded, at).is_dup(recorded, now),
        s.after_record(recorded, at).after_record(later, later_at).is_dup(recorded, now),
{
}

} // verus!
