//! What is typed for a scanned code, and how each keystroke backend is
//! driven.

use vstd::prelude::*;
use crate::Suffix;
use crate::config::{Config, Transform};
use vstd::utf8::is_ascii_chars;
use crate::text::{chars_of, push_char, trim, trimmed, lemma_trimmed_idempotent};

verus! {

/// How keystrokes reach the focused window.
#[derive(Debug, Clone, Copy, PartialEq, Eq, Structural)]
pub enum KeyboardMode {
    /// WSL: PowerShell `SendKeys` on the Windows side.
    PowerShell,
    /// X11 or Wayland with the `xdotool` program.
    XDotool,
    /// A display without `xdotool`: the `enigo` library.
    Enigo,
    /// No display: codes are only printed.
    PrintOnly,
}

/// The backend for an environment: PowerShell under WSL; otherwise, with a
/// display (`DISPLAY` or `WAYLAND_DISPLAY` set), `xdotool` when it runs and
/// `enigo` when not; without a display, printing only.
pub fn keyboard_mode(is_wsl: bool, has_display: bool, has_xdotool: bool) -> (m: KeyboardMode)
    ensures
        is_wsl ==> m == KeyboardMode::PowerShell,
        !is_wsl && has_display && has_xdotool ==> m == KeyboardMode::XDotool,
        !is_wsl && has_display && !has_xdotool ==> m == KeyboardMode::Enigo,
        !is_wsl && !has_display ==> m == KeyboardMode::PrintOnly,
{
    if is_wsl {
        return KeyboardMode::PowerShell;
    }
    if has_display {
        if has_xdotool {
            return KeyboardMode::XDotool;
        }
        return KeyboardMode::Enigo;
    }
    KeyboardMode::PrintOnly
}

/// What `str::to_uppercase` gives for a string.
pub uninterp spec fn upper_case(s: Seq<char>) -> Seq<char>;

/// What `str::to_lowercase` gives for a string.
pub uninterp spec fn lower_case(s: Seq<char>) -> Seq<char>;

/// The upper-case form of an ASCII character: `a`–`z` become `A`–`Z`,
/// every other character stays.
pub open spec fn ascii_upper_char(c: char) -> char {
    if 'a' <= c && c <= 'z' { ((c as u32) - 32) as char } else { c }
}

/// The lower-case form of an ASCII character: `A`–`Z` become `a`–`z`,
/// every other character stays.
pub open spec fn ascii_lower_char(c: char) -> char {
    if 'A' <= c && c <= 'Z' { ((c as u32) + 32) as char } else { c }
}

/// An ASCII string in upper case.
pub open spec fn ascii_upper(s: Seq<char>) -> Seq<char> {
    s.map_values(|c: char| ascii_upper_char(c))
}

/// An ASCII string in lower case.
pub open spec fn ascii_lower(s: Seq<char>) -> Seq<char> {
    s.map_values(|c: char| ascii_lower_char(c))
}

/// `str::to_uppercase`: the Unicode upper-case mapping of the string,
/// which on ASCII text maps `a`–`z` to `A`–`Z` and keeps every other
/// character.
#[verifier::external_body]
fn to_uppercase(s: &str) -> (r: String)
    ensures
        r@ == upper_case(s@),
        is_ascii_chars(s@) ==> r@ == ascii_upper(s@),
{
    s.to_uppercase()
}

/// `str::to_lowercase`: the Unicode lower-case mapping of the string,
/// which on ASCII text maps `A`–`Z` to `a`–`z` and keeps every other
/// character.
#[verifier::external_body]
fn to_lowercase(s: &str) -> (r: String)
    ensures
        r@ == lower_case(s@),
        is_ascii_chars(s@) ==> r@ == ascii_lower(s@),
{
    s.to_lowercase()
}

/// A code in upper case: the ASCII mapping on ASCII text, otherwise what
/// `str::to_uppercase` gives.
pub open spec fn upper_of(s: Seq<char>) -> Seq<char> {
    if is_ascii_chars(s) { ascii_upper(s) } else { upper_case(s) }
}

/// A code in lower case: the ASCII mapping on ASCII text, otherwise what
/// `str::to_lowercase` gives.
pub open spec fn lower_of(s: Seq<char>) -> Seq<char> {
    if is_ascii_chars(s) { ascii_lower(s) } else { lower_case(s) }
}

/// A code after the configured rewrite.
pub open spec fn transformed(s: Seq<char>, t: Transform) -> Seq<char> {
    match t {
        Transform::Keep => s,
        Transform::Upper => upper_of(s),
        Transform::Lower => lower_of(s),
        Transform::Trim => trimmed(s),
    }
}

/// Rewrites a scanned code: unchanged, upper case, lower case, or without
/// surrounding white space.
pub fn apply_transform(text: &str, transform: Transform) -> (r: String)
    ensures
        r@ == transformed(text@, transform),
        transform == Transform::Upper ==> r@ == upper_case(text@),
        transform == Transform::Lower ==> r@ == lower_case(text@),
{
    match transform {
        Transform::Keep => String::from_str(text),
        Transform::Upper => to_uppercase(text),
        Transform::Lower => to_lowercase(text),
        Transform::Trim => String::from_str(trim(text)),
    }
}

/// The text typed for a raw scan: the prefix, then the rewritten code.
pub fn typed_text(raw: &str, cfg: &Config) -> (r: String)
    ensures
        r@ == cfg.prefix@ + transformed(raw@, cfg.transform),
        cfg.transform == Transform::Upper ==> r@ == cfg.prefix@ + upper_case(raw@),
        cfg.transform == Transform::Lower ==> r@ == cfg.prefix@ + lower_case(raw@),
{
    let content = apply_transform(raw, cfg.transform);
    let mut text = cfg.prefix.clone();
    text.append(content.as_str());
    text
}

/// Where an accepted code goes.
#[derive(Debug, Clone, Copy, PartialEq, Eq, Structural)]
pub enum Delivery {
    /// Typed as keystrokes into the focused window.
    Keystrokes,
    /// Put on the clipboard, not typed ("copy only").
    Clipboard,
}

/// Copy-only mode sends codes to the clipboard instead of typing them.
pub fn delivery(cfg: &Config) -> (d: Delivery)
    ensures
        d == (if cfg.copy_only { Delivery::Clipboard } else { Delivery::Keystrokes }),
{
    if cfg.copy_only {
        Delivery::Clipboard
    } else {
        Delivery::Keystrokes
    }
}

/// The key that `xdotool key` presses after the code, if any.
pub fn xdotool_suffix_key(suffix: Suffix) -> (r: Option<&'static str>)
    ensures
        suffix == Suffix::Enter ==> r == Some("Return"),
        suffix == Suffix::Tab ==> r == Some("Tab"),
        suffix == Suffix::NoKey ==> r is None,
{
    match suffix {
        Suffix::Enter => Some("Return"),
        Suffix::Tab => Some("Tab"),
        Suffix::NoKey => None,
    }
}

/// Characters that `SendKeys` reads as commands unless put in braces.
pub open spec fn is_sendkeys_special(c: char) -> bool {
    c == '+' || c == '^' || c == '%' || c == '~' || c == '(' || c == ')'
        || c == '[' || c == ']' || c == '{' || c == '}'
}

/// The characters PowerShell reads as a single quote: the apostrophe and
/// U+2018 to U+201B.
pub open spec fn is_ps_quote(c: char) -> bool {
    c == '\'' || c == '\u{2018}' || c == '\u{2019}' || c == '\u{201a}' || c == '\u{201b}'
}

/// One character as written inside the single-quoted PowerShell string
/// that `SendKeys` gets, so that it is typed literally: `SendKeys`
/// specials in braces, a single-quote character doubled (PowerShell's
/// escape inside single quotes), any other character as is.
pub open spec fn sendkeys_char(c: char) -> Seq<char> {
    if is_sendkeys_special(c) {
        seq!['{', c, '}']
    } else if is_ps_quote(c) {
        seq![c, c]
    } else {
        seq![c]
    }
}

/// A string with each `SendKeys` special braced and each single-quote
/// character doubled.
pub open spec fn sendkeys_escaped(s: Seq<char>) -> Seq<char>
    decreases s.len(),
{
    if s.len() == 0 {
        Seq::<char>::empty()
    } else {
        sendkeys_escaped(s.drop_last()) + sendkeys_char(s.last())
    }
}

/// Braces each `SendKeys` special character (`+ ^ % ~ ( ) [ ] { }`) and
/// doubles each character PowerShell reads as a single quote (`'` and
/// U+2018 to U+201B), for a single-quoted PowerShell string, so
/// that the text is typed as is.
pub fn sendkeys_escape(text: &str) -> (r: String)
    ensures
        r@ == sendkeys_escaped(text@),
{
    let chars = chars_of(text);
    let mut out = String::new();
    for i in 0..chars.len()
        invariant
            chars@ == text@,
            out@ == sendkeys_escaped(text@.take(i as int)),
    {
        let c = chars[i];
        proof {
            assert(text@.take(i + 1).drop_last() =~= text@.take(i as int));
            assert(text@.take(i + 1).last() == c);
        }
        if c == '+' || c == '^' || c == '%' || c == '~' || c == '(' || c == ')'
            || c == '[' || c == ']' || c == '{' || c == '}' {
            push_char(&mut out, '{');
            push_char(&mut out, c);
            push_char(&mut out, '}');
        } else if c == '\'' || c == '\u{2018}' || c == '\u{2019}' || c == '\u{201a}' || c == '\u{201b}' {
            push_char(&mut out, c);
            push_char(&mut out, c);
        } else {
            push_char(&mut out, c);
        }
        assert(out@ =~= sendkeys_escaped(text@.take(i + 1)));
    }
    assert(text@.take(chars.len() as int) =~= text@);
    out
}

/// The `SendKeys` key name for the suffix, empty for none.
pub open spec fn sendkeys_suffix(suffix: Suffix) -> Seq<char> {
    match suffix {
        Suffix::Enter => "{ENTER}"@,
        Suffix::Tab => "{TAB}"@,
        Suffix::NoKey => ""@,
    }
}

/// The PowerShell script that types a text, then the suffix key.
pub open spec fn powershell_script(text: Seq<char>, suffix: Suffix) -> Seq<char> {
    let head = "Add-Type -AssemblyName System.Windows.Forms; [System.Windows.Forms.SendKeys]::SendWait('"@
        + sendkeys_escaped(text) + "')"@;
    if suffix == Suffix::NoKey {
        head
    } else {
        head + "; [System.Windows.Forms.SendKeys]::SendWait('"@ + sendkeys_suffix(suffix) + "')"@
    }
}

/// The command given to `powershell.exe -Command` to type `text` (escaped
/// for `SendKeys`) and then press the suffix key.
pub fn powershell_command(text: &str, suffix: Suffix) -> (cmd: String)
    ensures
        cmd@ == powershell_script(text@, suffix),
{
    let escaped = sendkeys_escape(text);
    let suffix_keys = match suffix {
        Suffix::Enter => "{ENTER}",
        Suffix::Tab => "{TAB}",
        Suffix::NoKey => "",
    };
    let mut cmd = String::from_str(
        "Add-Type -AssemblyName System.Windows.Forms; [System.Windows.Forms.SendKeys]::SendWait('",
    );
    cmd.append(escaped.as_str());
    cmd.append("')");
    if suffix_keys.unicode_len() != 0 {
        cmd.append("; [System.Windows.Forms.SendKeys]::SendWait('");
        cmd.append(suffix_keys);
        cmd.append("')");
    }
    proof {
        reveal_strlit("{ENTER}");
        reveal_strlit("{TAB}");
        reveal_strlit("");
    }
    cmd
}

} // verus!

verus! {

/// The text as `SendKeys` must receive it to type it literally: each
/// special in braces.
pub open spec fn sendkeys_braced(s: Seq<char>) -> Seq<char>
    decreases s.len(),
{
    if s.len() == 0 {
        Seq::<char>::empty()
    } else {
        sendkeys_braced(s.drop_last()) + (if is_sendkeys_special(s.last()) {
            seq!['{', s.last(), '}']
        } else {
            seq![s.last()]
        })
    }
}

/// The body of a single-quoted PowerShell string whose value is `s`: each
/// single-quote character doubled.
pub open spec fn ps_quoted(s: Seq<char>) -> Seq<char>
    decreases s.len(),
{
    if s.len() == 0 {
        Seq::<char>::empty()
    } else {
        (if is_ps_quote(s[0]) { seq![s[0], s[0]] } else { seq![s[0]] }) + ps_quoted(s.drop_first())
    }
}

/// The value of a single-quoted PowerShell string with body `b`, read from
/// the left: two single-quote characters stand for the second of them; a
/// lone one would end the string early, so such a body has no value.
pub open spec fn ps_literal_value(b: Seq<char>) -> Option<Seq<char>>
    decreases b.len(),
{
    if b.len() == 0 {
        Some(Seq::<char>::empty())
    } else if is_ps_quote(b[0]) {
        if b.len() >= 2 && is_ps_quote(b[1]) {
            match ps_literal_value(b.skip(2)) {
                Some(r) => Some(seq![b[1]] + r),
                None => None,
            }
        } else {
            None
        }
    } else {
        match ps_literal_value(b.drop_first()) {
            Some(r) => Some(seq![b[0]] + r),
            None => None,
        }
    }
}

proof fn lemma_ps_quoted_append(a: Seq<char>, b: Seq<char>)
    ensures
        ps_quoted(a + b) == ps_quoted(a) + ps_quoted(b),
    decreases a.len(),
{
    if a.len() == 0 {
        assert(a + b =~= b);
    } else {
        lemma_ps_quoted_append(a.drop_first(), b);
        assert((a + b).drop_first() =~= a.drop_first() + b);
        assert((a + b)[0] == a[0]);
    }
}

proof fn lemma_ps_literal_of_quoted(x: Seq<char>)
    ensures
        ps_literal_value(ps_quoted(x)) == Some(x),
    decreases x.len(),
{
    if x.len() > 0 {
        lemma_ps_literal_of_quoted(x.drop_first());
        let q = ps_quoted(x);
        let rest = ps_quoted(x.drop_first());
        if is_ps_quote(x[0]) {
            assert(q.skip(2) =~= rest);
        } else {
            assert(q.drop_first() =~= rest);
        }
        assert(x =~= seq![x[0]] + x.drop_first());
    } else {
        assert(ps_quoted(x) =~= Seq::<char>::empty());
        assert(x =~= Seq::<char>::empty());
    }
}

proof fn lemma_escaped_is_quoted_braced(s: Seq<char>)
    ensures
        sendkeys_escaped(s) == ps_quoted(sendkeys_braced(s)),
    decreases s.len(),
{
    if s.len() > 0 {
        lemma_escaped_is_quoted_braced(s.drop_last());
        let c = s.last();
        let tail = if is_sendkeys_special(c) { seq!['{', c, '}'] } else { seq![c] };
        lemma_ps_quoted_append(sendkeys_braced(s.drop_last()), tail);
        if is_sendkeys_special(c) {
            assert(ps_quoted(seq!['{', c, '}']) =~= seq!['{', c, '}']) by {
                reveal_with_fuel(ps_quoted, 4);
                assert(seq!['{', c, '}'].drop_first() =~= seq![c, '}']);
                assert(seq![c, '}'].drop_first() =~= seq!['}']);
                assert(seq!['}'].drop_first() =~= Seq::<char>::empty());
            }
        } else {
            assert(ps_quoted(seq![c]) =~= (if is_ps_quote(c) { seq![c, c] } else { seq![c] })) by {
                reveal_with_fuel(ps_quoted, 2);
                assert(seq![c].drop_first() =~= Seq::<char>::empty());
            }
        }
    } else {
        assert(ps_quoted(Seq::<char>::empty()) =~= Seq::<char>::empty());
    }
}

/// The text put between the quotes of `SendWait('…')` is a well-formed
/// single-quoted PowerShell string whose value is the text with each
/// `SendKeys` special in braces: every character of a scan, single-quote
/// characters included, is typed as scanned.
pub proof fn lemma_sendkeys_argument(text: Seq<char>)
    ensures
        ps_literal_value(sendkeys_escaped(text)) == Some(sendkeys_braced(text)),
{
    lemma_escaped_is_quoted_braced(text);
    lemma_ps_literal_of_quoted(sendkeys_braced(text));
}

} // verus!

verus! {

/// Rewriting a code twice gives what one rewrite gives, for `Keep` and
/// `Trim` on any text and for `Upper` and `Lower` on ASCII text. (Of the
/// case mappings outside ASCII the library states nothing beyond that
/// they are `str::to_uppercase` and `str::to_lowercase`.)
pub proof fn lemma_transform_idempotent(s: Seq<char>, t: Transform)
    requires
        t == Transform::Keep || t == Transform::Trim || is_ascii_chars(s),
    ensures
        transformed(transformed(s, t), t) == transformed(s, t),
{
    if t == Transform::Trim {
        lemma_trimmed_idempotent(s);
    } else if t == Transform::Upper {
        let u = ascii_upper(s);
        assert(is_ascii_chars(u));
        assert(ascii_upper(u) =~= u);
    } else if t == Transform::Lower {
        let l = ascii_lower(s);
        assert(is_ascii_chars(l));
        assert(ascii_lower(l) =~= l);
    }
}

} // verus!
