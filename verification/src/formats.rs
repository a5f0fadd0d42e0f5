//! The set of barcode formats that the phone scanner recognises, and its
//! comma-separated form in the scanner URL and the configuration.

use vstd::prelude::*;
use crate::text::{chars_of, str_eq, trim, trimmed, is_white_space, lemma_trimmed_unchanged};

verus! {

/// Number of barcode formats the scanner knows.
pub const FORMAT_COUNT: usize = 12;

/// Which barcode formats the phone scanner should look for.
#[derive(Debug, Clone, Copy, PartialEq, Eq, Structural)]
pub struct Formats {
    pub ean13: bool,
    pub ean8: bool,
    pub upca: bool,
    pub upce: bool,
    pub code39: bool,
    pub code128: bool,
    pub qrcode: bool,
    pub pdf417: bool,
    pub itf: bool,
    pub codabar: bool,
    pub code93: bool,
    pub databar: bool,
}

/// The name of format `k` in the scanner's `formats` parameter, in the
/// order in which `to_param` lists them.
pub open spec fn format_name(k: int) -> Seq<char> {
    if k == 0 { "ean13"@ }
    else if k == 1 { "ean8"@ }
    else if k == 2 { "upca"@ }
    else if k == 3 { "upce"@ }
    else if k == 4 { "code39"@ }
    else if k == 5 { "code128"@ }
    else if k == 6 { "qrcode"@ }
    else if k == 7 { "pdf417"@ }
    else if k == 8 { "itf"@ }
    else if k == 9 { "codabar"@ }
    else if k == 10 { "code93"@ }
    else { "databar"@ }
}

impl Formats {
    /// Whether format `k` (numbered as in `format_name`) is selected.
    pub open spec fn flag(self, k: int) -> bool {
        if k == 0 { self.ean13 }
        else if k == 1 { self.ean8 }
        else if k == 2 { self.upca }
        else if k == 3 { self.upce }
        else if k == 4 { self.code39 }
        else if k == 5 { self.code128 }
        else if k == 6 { self.qrcode }
        else if k == 7 { self.pdf417 }
        else if k == 8 { self.itf }
        else if k == 9 { self.codabar }
        else if k == 10 { self.code93 }
        else { self.databar }
    }
}

/// The selection the scanner uses when no `formats` parameter is given.
pub open spec fn default_formats() -> Formats {
    Formats {
        ean13: true, ean8: true, upca: true, upce: false,
        code39: true, code128: true, qrcode: false, pdf417: false,
        itf: false, codabar: false, code93: false, databar: false,
    }
}

/// The pieces of `s` between commas, as `str::split(',')` gives them:
/// always at least one piece, an empty one for the empty string.
pub open spec fn split_commas(s: Seq<char>) -> Seq<Seq<char>>
    decreases s.len(),
{
    if s.len() == 0 {
        seq![Seq::<char>::empty()]
    } else {
        let r = split_commas(s.drop_last());
        if s.last() == ',' {
            r.push(Seq::<char>::empty())
        } else {
            r.update(r.len() - 1, r.last().push(s.last()))
        }
    }
}

/// The pieces joined with commas between them.
pub open spec fn join_commas(parts: Seq<Seq<char>>) -> Seq<char>
    decreases parts.len(),
{
    if parts.len() == 0 {
        Seq::<char>::empty()
    } else if parts.len() == 1 {
        parts[0]
    } else {
        join_commas(parts.drop_last()) + seq![','] + parts.last()
    }
}

/// Whether one of the comma-separated pieces of `s`, trimmed, is `name`.
pub open spec fn lists(s: Seq<char>, name: Seq<char>) -> bool {
    exists|j: int| 0 <= j < split_commas(s).len() && #[trigger] trimmed(split_commas(s)[j]) == name
}

/// The selection that a `formats` parameter describes.
pub open spec fn parse_formats(s: Seq<char>) -> Formats {
    Formats {
        ean13: lists(s, format_name(0)),
        ean8: lists(s, format_name(1)),
        upca: lists(s, format_name(2)),
        upce: lists(s, format_name(3)),
        code39: lists(s, format_name(4)),
        code128: lists(s, format_name(5)),
        qrcode: lists(s, format_name(6)),
        pdf417: lists(s, format_name(7)),
        itf: lists(s, format_name(8)),
        codabar: lists(s, format_name(9)),
        code93: lists(s, format_name(10)),
        databar: lists(s, format_name(11)),
    }
}

/// The names of the selected formats among the first `n`, in order.
pub open spec fn selected_names(f: Formats, n: int) -> Seq<Seq<char>>
    decreases n,
{
    if n <= 0 {
        Seq::<Seq<char>>::empty()
    } else {
        let r = selected_names(f, n - 1);
        if f.flag(n - 1) {
            r.push(format_name(n - 1))
        } else {
            r
        }
    }
}

/// The `formats` parameter that describes `f`.
pub open spec fn format_param(f: Formats) -> Seq<char> {
    join_commas(selected_names(f, FORMAT_COUNT as int))
}

/// The name of format `k`.
pub fn format_name_at(k: usize) -> (r: &'static str)
    requires
        k < FORMAT_COUNT,
    ensures
        r@ == format_name(k as int),
{
    if k == 0 { "ean13" }
    else if k == 1 { "ean8" }
    else if k == 2 { "upca" }
    else if k == 3 { "upce" }
    else if k == 4 { "code39" }
    else if k == 5 { "code128" }
    else if k == 6 { "qrcode" }
    else if k == 7 { "pdf417" }
    else if k == 8 { "itf" }
    else if k == 9 { "codabar" }
    else if k == 10 { "code93" }
    else { "databar" }
}

} // verus!

verus! {

/// A non-empty run of lower-case ASCII letters and digits.
pub open spec fn is_plain_word(s: Seq<char>) -> bool {
    &&& s.len() > 0
    &&& forall|i: int| 0 <= i < s.len() ==> {
        ||| ('a' <= #[trigger] s[i] && s[i] <= 'z')
        ||| ('0' <= s[i] && s[i] <= '9')
    }
}

/// Every format name is a plain word, and no two formats share a name.
pub proof fn lemma_format_names()
    ensures
        forall|k: int| 0 <= k < FORMAT_COUNT ==> is_plain_word(#[trigger] format_name(k)),
        forall|j: int, k: int|
            0 <= j < FORMAT_COUNT && 0 <= k < FORMAT_COUNT && j != k
                ==> #[trigger] format_name(j) != #[trigger] format_name(k),
{
    reveal_strlit("ean13");
    reveal_strlit("ean8");
    reveal_strlit("upca");
    reveal_strlit("upce");
    reveal_strlit("code39");
    reveal_strlit("code128");
    reveal_strlit("qrcode");
    reveal_strlit("pdf417");
    reveal_strlit("itf");
    reveal_strlit("codabar");
    reveal_strlit("code93");
    reveal_strlit("databar");
    assert forall|k: int| 0 <= k < FORMAT_COUNT implies is_plain_word(#[trigger] format_name(k)) by {
        let s = format_name(k);
        assert forall|i: int| 0 <= i < s.len() implies
            ('a' <= #[trigger] s[i] && s[i] <= 'z') || ('0' <= s[i] && s[i] <= '9') by {
        }
    }
    assert forall|j: int, k: int|
        0 <= j < FORMAT_COUNT && 0 <= k < FORMAT_COUNT && j != k
            implies #[trigger] format_name(j) != #[trigger] format_name(k) by {
        let a = format_name(j);
        let b = format_name(k);
        if a.len() == b.len() {
            if a[0] == b[0] {
                if a[1] == b[1] {
                    if a[2] == b[2] {
                        if a[3] == b[3] {
                            if a[4] == b[4] {
                                assert(a[5] != b[5]);
                            }
                        }
                    }
                }
            }
        }
    }
}

/// A plain word is its own trim and holds no comma.
pub proof fn lemma_plain_word(s: Seq<char>)
    requires
        is_plain_word(s),
    ensures
        trimmed(s) == s,
        !s.contains(','),
{
    assert(!is_white_space(s[0]));
    assert(!is_white_space(s[s.len() - 1]));
    lemma_trimmed_unchanged(s);
    if s.contains(',') {
        let i = choose|i: int| 0 <= i < s.len() && s[i] == ',';
        assert(('a' <= s[i] && s[i] <= 'z') || ('0' <= s[i] && s[i] <= '9'));
    }
}

/// `split_commas` never gives an empty list.
pub proof fn lemma_split_nonempty(s: Seq<char>)
    ensures
        split_commas(s).len() >= 1,
    decreases s.len(),
{
    if s.len() > 0 {
        lemma_split_nonempty(s.drop_last());
    }
}

/// A string with no comma is a single piece.
pub proof fn lemma_split_no_comma(t: Seq<char>)
    requires
        !t.contains(','),
    ensures
        split_commas(t) == seq![t],
    decreases t.len(),
{
    if t.len() > 0 {
        let u = t.drop_last();
        assert(!u.contains(',')) by {
            if u.contains(',') {
                let i = choose|i: int| 0 <= i < u.len() && u[i] == ',';
                assert(t[i] == ',');
            }
        }
        lemma_split_no_comma(u);
        assert(t.last() != ',') by {
            assert(t[t.len() - 1] == t.last());
        }
        assert(u.push(t.last()) =~= t);
        assert(split_commas(t) =~= seq![t]);
    } else {
        assert(t =~= Seq::<char>::empty());
    }
}

/// Splitting at a comma splits the two sides apart.
pub proof fn lemma_split_append(s: Seq<char>, t: Seq<char>)
    ensures
        split_commas(s + seq![','] + t) == split_commas(s) + split_commas(t),
    decreases t.len(),
{
    let st = s + seq![','] + t;
    if t.len() == 0 {
        assert(st.drop_last() =~= s);
        assert(split_commas(st) =~= split_commas(s) + split_commas(t));
    } else {
        let u = t.drop_last();
        lemma_split_append(s, u);
        lemma_split_nonempty(u);
        lemma_split_nonempty(s);
        assert(st.drop_last() =~= s + seq![','] + u);
        assert(st.last() == t.last());
        let a = split_commas(s);
        let b = split_commas(u);
        if t.last() == ',' {
            assert(split_commas(st) =~= a + split_commas(t));
        } else {
            assert((a + b).update((a + b).len() - 1, (a + b).last().push(t.last()))
                =~= a + b.update(b.len() - 1, b.last().push(t.last())));
            assert(split_commas(st) =~= a + split_commas(t));
        }
    }
}

/// Joining comma-free pieces with commas and splitting again gives the pieces back.
pub proof fn lemma_split_join(parts: Seq<Seq<char>>)
    requires
        parts.len() >= 1,
        forall|j: int| 0 <= j < parts.len() ==> !(#[trigger] parts[j]).contains(','),
    ensures
        split_commas(join_commas(parts)) == parts,
    decreases parts.len(),
{
    if parts.len() == 1 {
        lemma_split_no_comma(parts[0]);
        assert(parts =~= seq![parts[0]]);
    } else {
        let init = parts.drop_last();
        assert(forall|j: int| 0 <= j < init.len() ==> init[j] == parts[j]);
        lemma_split_join(init);
        lemma_split_append(join_commas(init), parts.last());
        assert(!parts[parts.len() - 1].contains(','));
        lemma_split_no_comma(parts.last());
        assert(init + seq![parts.last()] =~= parts);
    }
}

/// The selected names among the first `n` are exactly the names of the
/// selected formats below `n`, each a plain word.
pub proof fn lemma_selected_names(f: Formats, n: int)
    requires
        0 <= n <= FORMAT_COUNT,
    ensures
        forall|j: int| 0 <= j < selected_names(f, n).len()
            ==> is_plain_word(#[trigger] selected_names(f, n)[j]),
        forall|k: int| 0 <= k < FORMAT_COUNT ==>
            (selected_names(f, n).contains(#[trigger] format_name(k)) <==> (k < n && f.flag(k))),
    decreases n,
{
    lemma_format_names();
    if n > 0 {
        lemma_selected_names(f, n - 1);
        let r = selected_names(f, n - 1);
        if f.flag(n - 1) {
            let r2 = r.push(format_name(n - 1));
            assert forall|k: int| 0 <= k < FORMAT_COUNT implies
                (r2.contains(#[trigger] format_name(k)) <==> (k < n && f.flag(k))) by {
                if r2.contains(format_name(k)) {
                    let j = choose|j: int| 0 <= j < r2.len() && r2[j] == format_name(k);
                    if j < r.len() {
                        assert(r.contains(format_name(k)));
                    } else {
                        assert(format_name(n - 1) == format_name(k));
                    }
                }
                if k < n && f.flag(k) {
                    if k == n - 1 {
                        assert(r2[r.len() as int] == format_name(k));
                    } else {
                        let j = choose|j: int| 0 <= j < r.len() && r[j] == format_name(k);
                        assert(r2[j] == format_name(k));
                    }
                }
            }
        }
    }
}

} // verus!

verus! {

/// The `formats` parameter of a selection names exactly the selected
/// formats: a piece of it, trimmed, is a format's name iff that format is
/// selected.
pub proof fn lemma_param_lists(f: Formats, k: int)
    requires
        0 <= k < FORMAT_COUNT,
    ensures
        lists(format_param(f), format_name(k)) == f.flag(k),
{
    lemma_format_names();
    lemma_selected_names(f, FORMAT_COUNT as int);
    let names = selected_names(f, FORMAT_COUNT as int);
    let p = format_param(f);
    if names.len() == 0 {
        assert(p =~= Seq::<char>::empty());
        assert(split_commas(p) =~= seq![Seq::<char>::empty()]);
        assert(trimmed(Seq::<char>::empty()) =~= Seq::<char>::empty());
        assert(!f.flag(k)) by {
            if f.flag(k) {
                assert(names.contains(format_name(k)));
            }
        }
        if lists(p, format_name(k)) {
            assert(is_plain_word(format_name(k)));
        }
    } else {
        assert forall|j: int| 0 <= j < names.len() implies !(#[trigger] names[j]).contains(',') by {
            lemma_plain_word(names[j]);
        }
        lemma_split_join(names);
        if lists(p, format_name(k)) {
            let j = choose|j: int| 0 <= j < split_commas(p).len()
                && #[trigger] trimmed(split_commas(p)[j]) == format_name(k);
            lemma_plain_word(names[j]);
            assert(names.contains(format_name(k)));
        }
        if f.flag(k) {
            assert(names.contains(format_name(k)));
            let j = choose|j: int| 0 <= j < names.len() && names[j] == format_name(k);
            lemma_plain_word(names[j]);
            assert(trimmed(split_commas(p)[j]) == format_name(k));
        }
    }
}

/// Reading back the `formats` parameter of a selection gives the same
/// selection: what the PC encodes into the QR code is what the phone
/// scanner decodes.
pub proof fn lemma_param_roundtrip(f: Formats)
    ensures
        parse_formats(format_param(f)) == f,
{
    lemma_param_lists(f, 0);
    lemma_param_lists(f, 1);
    lemma_param_lists(f, 2);
    lemma_param_lists(f, 3);
    lemma_param_lists(f, 4);
    lemma_param_lists(f, 5);
    lemma_param_lists(f, 6);
    lemma_param_lists(f, 7);
    lemma_param_lists(f, 8);
    lemma_param_lists(f, 9);
    lemma_param_lists(f, 10);
    lemma_param_lists(f, 11);
}

} // verus!

verus! {

impl Default for Formats {
    /// EAN-13, EAN-8, UPC-A, Code 39 and Code 128.
    fn default() -> (r: Self)
        ensures
            r == default_formats(),
    {
        Formats {
            ean13: true, ean8: true, upca: true, upce: false,
            code39: true, code128: true, qrcode: false, pdf417: false,
            itf: false, codabar: false, code93: false, databar: false,
        }
    }
}

impl Formats {
    /// Whether format `k` is selected.
    pub fn flag_at(&self, k: usize) -> (b: bool)
        requires
            k < FORMAT_COUNT,
        ensures
            b == self.flag(k as int),
    {
        if k == 0 { self.ean13 }
        else if k == 1 { self.ean8 }
        else if k == 2 { self.upca }
        else if k == 3 { self.upce }
        else if k == 4 { self.code39 }
        else if k == 5 { self.code128 }
        else if k == 6 { self.qrcode }
        else if k == 7 { self.pdf417 }
        else if k == 8 { self.itf }
        else if k == 9 { self.codabar }
        else if k == 10 { self.code93 }
        else { self.databar }
    }

    /// Whether this is the scanner's default selection.
    pub fn is_default(&self) -> (r: bool)
        ensures
            r == (*self == default_formats()),
    {
        *self == Self::default()
    }

    /// The selected format names, in the fixed order, joined by commas
    /// (empty when nothing is selected).
    pub fn to_param(&self) -> (r: String)
        ensures
            r@ == format_param(*self),
    {
        let mut out = String::new();
        let mut any = false;
        for k in 0..FORMAT_COUNT
            invariant
                out@ == join_commas(selected_names(*self, k as int)),
                any == (selected_names(*self, k as int).len() > 0),
        {
            let ghost before = selected_names(*self, k as int);
            if self.flag_at(k) {
                let name = format_name_at(k);
                let ghost after = before.push(name@);
                assert(after.drop_last() =~= before);
                if any {
                    out.append(",");
                    proof {
                        reveal_strlit(",");
                    }
                    assert(","@ =~= seq![',']);
                    assert(join_commas(after) == join_commas(before) + seq![','] + name@);
                } else {
                    assert(before =~= Seq::<Seq<char>>::empty());
                    assert(join_commas(after) == name@);
                }
                out.append(name);
                any = true;
                assert(selected_names(*self, k + 1) == after);
            } else {
                assert(selected_names(*self, k + 1) == before);
            }
        }
        out
    }

    /// The selection described by a comma-separated list of format names:
    /// a format is selected iff one of the pieces between commas, with
    /// surrounding white space removed, is its name. Unknown names are
    /// ignored.
    pub fn from_str(s: &str) -> (r: Self)
        ensures
            r == parse_formats(s@),
    {
        let chars = chars_of(s);
        let n = chars.len();
        let mut flags: Vec<bool> = vec![false; FORMAT_COUNT];
        let mut start: usize = 0;
        for i in 0..n
            invariant
                n == chars.len(),
                chars@ == s@,
                start <= i,
                flags.len() == FORMAT_COUNT,
                split_commas(s@.take(i as int)).len() >= 1,
                split_commas(s@.take(i as int)).last() == s@.subrange(start as int, i as int),
                forall|k: int| 0 <= k < FORMAT_COUNT ==>
                    (#[trigger] flags@[k] <==> completed_lists(s@.take(i as int), format_name(k))),
        {
            let ghost pre = s@.take(i as int);
            let ghost post = s@.take(i + 1);
            proof {
                assert(post.drop_last() =~= pre);
                assert(post.last() == chars@[i as int]);
                lemma_split_nonempty(pre);
            }
            if chars[i] == ',' {
                note_piece(s, start, i, &mut flags);
                proof {
                    let a = split_commas(pre);
                    let b = split_commas(post);
                    assert(b == a.push(Seq::<char>::empty()));
                    assert(b.last() =~= s@.subrange(i + 1, i + 1));
                    assert forall|k: int| 0 <= k < FORMAT_COUNT implies
                        (#[trigger] flags@[k] <==> completed_lists(post, format_name(k))) by {
                        if completed_lists(post, format_name(k)) {
                            let j = choose|j: int| 0 <= j < b.len() - 1 && #[trigger] trimmed(b[j]) == format_name(k);
                            if j < a.len() - 1 {
                                assert(trimmed(a[j]) == format_name(k));
                            }
                        }
                        if completed_lists(pre, format_name(k)) {
                            let j = choose|j: int| 0 <= j < a.len() - 1 && #[trigger] trimmed(a[j]) == format_name(k);
                            assert(trimmed(b[j]) == format_name(k));
                        }
                        if trimmed(s@.subrange(start as int, i as int)) == format_name(k) {
                            assert(trimmed(b[a.len() - 1]) == format_name(k));
                        }
                    }
                }
                start = i + 1;
            } else {
                proof {
                    let a = split_commas(pre);
                    let b = split_commas(post);
                    assert(b.last() =~= s@.subrange(start as int, i + 1));
                    assert forall|k: int| 0 <= k < FORMAT_COUNT implies
                        (#[trigger] flags@[k] <==> completed_lists(post, format_name(k))) by {
                        if completed_lists(post, format_name(k)) {
                            let j = choose|j: int| 0 <= j < b.len() - 1 && #[trigger] trimmed(b[j]) == format_name(k);
                            assert(trimmed(a[j]) == format_name(k));
                        }
                        if completed_lists(pre, format_name(k)) {
                            let j = choose|j: int| 0 <= j < a.len() - 1 && #[trigger] trimmed(a[j]) == format_name(k);
                            assert(trimmed(b[j]) == format_name(k));
                        }
                    }
                }
            }
        }
        note_piece(s, start, n, &mut flags);
        proof {
            assert(s@.take(n as int) =~= s@);
            let a = split_commas(s@);
            assert forall|k: int| 0 <= k < FORMAT_COUNT implies
                (#[trigger] flags@[k] <==> lists(s@, format_name(k))) by {
                if lists(s@, format_name(k)) {
                    let j = choose|j: int| 0 <= j < a.len() && #[trigger] trimmed(a[j]) == format_name(k);
                    if j < a.len() - 1 {
                        assert(completed_lists(s@, format_name(k)));
                    }
                }
                if completed_lists(s@, format_name(k)) {
                    let j = choose|j: int| 0 <= j < a.len() - 1 && #[trigger] trimmed(a[j]) == format_name(k);
                    assert(trimmed(a[j]) == format_name(k));
                }
                if trimmed(s@.subrange(start as int, n as int)) == format_name(k) {
                    assert(trimmed(a[a.len() - 1]) == format_name(k));
                }
            }
        }
        Formats {
            ean13: flags[0],
            ean8: flags[1],
            upca: flags[2],
            upce: flags[3],
            code39: flags[4],
            code128: flags[5],
            qrcode: flags[6],
            pdf417: flags[7],
            itf: flags[8],
            codabar: flags[9],
            code93: flags[10],
            databar: flags[11],
        }
    }
}

/// Whether a piece of `s` before its last comma, trimmed, is `name`.
pub open spec fn completed_lists(s: Seq<char>, name: Seq<char>) -> bool {
    exists|j: int| 0 <= j < split_commas(s).len() - 1 && #[trigger] trimmed(split_commas(s)[j]) == name
}

/// Marks each format whose name is the trimmed piece `s[start..end]`.
fn note_piece(s: &str, start: usize, end: usize, flags: &mut Vec<bool>)
    requires
        start <= end <= s@.len(),
        old(flags).len() == FORMAT_COUNT,
    ensures
        final(flags).len() == FORMAT_COUNT,
        forall|k: int| 0 <= k < FORMAT_COUNT ==>
            (#[trigger] final(flags)@[k] <==> (old(flags)@[k]
                || trimmed(s@.subrange(start as int, end as int)) == format_name(k))),
{
    let piece = trim(s.substring_char(start, end));
    for k in 0..FORMAT_COUNT
        invariant
            flags.len() == FORMAT_COUNT,
            piece@ == trimmed(s@.subrange(start as int, end as int)),
            forall|m: int| 0 <= m < k ==>
                (#[trigger] flags@[m] <==> (old(flags)@[m] || piece@ == format_name(m))),
            forall|m: int| k <= m < FORMAT_COUNT ==> #[trigger] flags@[m] == old(flags)@[m],
    {
        if str_eq(piece, format_name_at(k)) {
            flags.set(k, true);
        }
    }
}

} // verus!
