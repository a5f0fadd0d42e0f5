//! Typing a code with Windows `SendInput`: which keyboard events are sent,
//! in which batches, and which error ends the typing. The calls into the
//! Windows API (`VkKeyScanA`, `SendInput`) are made by the caller.

use vstd::prelude::*;
pub use crate::Suffix;
use crate::terminal::{decimal, push_decimal};
use crate::text::{chars_of, push_char};

verus! {

/// Virtual-key code of the Tab key.
pub const VK_TAB: u16 = 0x09;
/// Virtual-key code of the Enter key.
pub const VK_RETURN: u16 = 0x0D;
/// Virtual-key code of the Shift key.
pub const VK_SHIFT: u16 = 0x10;
/// `KEYEVENTF_KEYUP`: the event releases the key.
pub const KEYEVENTF_KEYUP: u32 = 0x0002;

/// A keyboard `INPUT` for `SendInput`: virtual key and event flags (scan
/// code, time and extra info are 0).
#[derive(Debug, Clone, Copy, PartialEq, Eq, Structural)]
pub struct KeyInput {
    pub vk: u16,
    pub flags: u32,
}

/// The event that presses (`keyup` false) or releases a key.
pub open spec fn key_event(vk: u16, keyup: bool) -> KeyInput {
    KeyInput { vk, flags: if keyup { KEYEVENTF_KEYUP } else { 0 } }
}

/// The keyboard input that presses or releases `vk`.
pub fn create_input(vk: u16, keyup: bool) -> (input: KeyInput)
    ensures
        input == key_event(vk, keyup),
{
    let mut flags: u32 = 0;
    if keyup {
        flags = flags | KEYEVENTF_KEYUP;
        assert(0u32 | 2u32 == 2u32) by (bit_vector);
    }
    KeyInput { vk, flags }
}

/// The events of one key stroke, wrapped in Shift when `shift`.
pub open spec fn key_stroke(vk: u16, shift: bool) -> Seq<KeyInput> {
    (if shift { seq![key_event(VK_SHIFT, false)] } else { Seq::<KeyInput>::empty() })
        + seq![key_event(vk, false), key_event(vk, true)]
        + (if shift { seq![key_event(VK_SHIFT, true)] } else { Seq::<KeyInput>::empty() })
}

/// The events that `SendInput` gets for one key stroke.
pub fn key_stroke_inputs(vk: u16, shift: bool) -> (inputs: Vec<KeyInput>)
    ensures
        inputs@ == key_stroke(vk, shift),
{
    let mut inputs: Vec<KeyInput> = Vec::new();
    if shift {
        inputs.push(create_input(VK_SHIFT, false));
    }
    inputs.push(create_input(vk, false));
    inputs.push(create_input(vk, true));
    if shift {
        inputs.push(create_input(VK_SHIFT, true));
    }
    assert(inputs@ =~= key_stroke(vk, shift));
    inputs
}

/// The virtual key in a `VkKeyScanA` result (its low byte).
pub open spec fn scan_key(scan: i16) -> u16 {
    (scan & 0xFF) as u16
}

/// Whether a `VkKeyScanA` result asks for Shift (bit 0 of its high byte).
pub open spec fn scan_shift(scan: i16) -> bool {
    ((scan >> 8) & 0xFF) & 0x01 != 0
}

/// The error for a character outside ASCII.
pub open spec fn non_ascii_error(c: char) -> Seq<char> {
    "Non-ASCII character not supported: '"@ + seq![c] + "'"@
}

/// The error for an ASCII character the keyboard layout cannot type.
pub open spec fn no_mapping_error(c: char) -> Seq<char> {
    "Character '"@ + seq![c] + "' has no VK mapping"@
}

/// The events for one character, or why it cannot be typed. `layout[b]` is
/// what `VkKeyScanA(b)` gives for each ASCII byte `b`.
pub open spec fn char_stroke(c: char, layout: Seq<i16>) -> Result<Seq<KeyInput>, Seq<char>> {
    let code = c as u32;
    if code >= 128 {
        Err(non_ascii_error(c))
    } else if layout[code as int] == -1 {
        Err(no_mapping_error(c))
    } else {
        Ok(key_stroke(scan_key(layout[code as int]), scan_shift(layout[code as int])))
    }
}

/// The batches sent for the characters of `s` (one per character, in
/// order, up to the first that cannot be typed) and that character's error.
pub open spec fn text_strokes(s: Seq<char>, layout: Seq<i16>) -> (Seq<Seq<KeyInput>>, Option<Seq<char>>)
    decreases s.len(),
{
    if s.len() == 0 {
        (Seq::<Seq<KeyInput>>::empty(), None)
    } else {
        let (batches, error) = text_strokes(s.drop_last(), layout);
        if error is Some {
            (batches, error)
        } else {
            match char_stroke(s.last(), layout) {
                Ok(events) => (batches.push(events), None),
                Err(e) => (batches, Some(e)),
            }
        }
    }
}

/// The key pressed after the text, if any.
pub open spec fn suffix_key(suffix: Suffix) -> Option<u16> {
    match suffix {
        Suffix::Enter => Some(VK_RETURN),
        Suffix::Tab => Some(VK_TAB),
        Suffix::NoKey => None,
    }
}

/// What typing a text sends: one batch per character, then the suffix key
/// when every character could be typed; and the error that ends it early.
pub struct HidPlan {
    /// Event batches, each sent with one `SendInput` call, in order.
    pub batches: Vec<Vec<KeyInput>>,
    /// Returned after the batches are sent, when a character cannot be typed.
    pub error: Option<String>,
}

impl HidPlan {
    /// The batches' events.
    pub open spec fn batches_view(&self) -> Seq<Seq<KeyInput>> {
        self.batches@.map_values(|b: Vec<KeyInput>| b@)
    }

    /// The error's text.
    pub open spec fn error_view(&self) -> Option<Seq<char>> {
        match self.error {
            Some(e) => Some(e@),
            None => None,
        }
    }
}

/// What typing `text` then `suffix` sends: per character, the events for
/// its virtual key, with Shift when the layout asks for it; the first
/// character outside ASCII or without a mapping (`VkKeyScanA` gives -1)
/// stops the typing with its error; otherwise the suffix key follows.
/// `layout[b]` is what `VkKeyScanA(b)` gives for the ASCII byte `b`.
pub fn inject_hid_reports_windows(text: &str, suffix: Suffix, layout: &Vec<i16>) -> (plan: HidPlan)
    requires
        layout@.len() == 128,
    ensures
        ({
            let (batches, error) = text_strokes(text@, layout@);
            &&& plan.error_view() == error
            &&& plan.batches_view() == if error is None {
                match suffix_key(suffix) {
                    Some(vk) => batches.push(key_stroke(vk, false)),
                    None => batches,
                }
            } else {
                batches
            }
        }),
{
    let chars = chars_of(text);
    let mut batches: Vec<Vec<KeyInput>> = Vec::new();
    let mut i: usize = 0;
    while i < chars.len()
        invariant
            chars@ == text@,
            layout@.len() == 128,
            i <= chars.len(),
            text_strokes(text@.take(i as int), layout@).1 is None,
            batches@.map_values(|b: Vec<KeyInput>| b@) == text_strokes(text@.take(i as int), layout@).0,
        decreases chars.len() - i,
    {
        let c = chars[i];
        proof {
            assert(text@.take(i + 1).drop_last() =~= text@.take(i as int));
            assert(text@.take(i + 1).last() == c);
        }
        let code = c as u32;
        if code >= 128 {
            let mut msg = String::from_str("Non-ASCII character not supported: '");
            push_char(&mut msg, c);
            msg.append("'");
            proof {
                lemma_strokes_stop(text@, layout@, i as int);
            }
            return HidPlan { batches, error: Some(msg) };
        }
        let scan = layout[code as usize];
        if scan == -1 {
            let mut msg = String::from_str("Character '");
            push_char(&mut msg, c);
            msg.append("' has no VK mapping");
            proof {
                lemma_strokes_stop(text@, layout@, i as int);
            }
            return HidPlan { batches, error: Some(msg) };
        }
        let vk = (scan & 0xFF) as u16;
        let shift_state = (scan >> 8) & 0xFF;
        let needs_shift = (shift_state & 0x01) != 0;
        let stroke = key_stroke_inputs(vk, needs_shift);
        let ghost before = batches@;
        batches.push(stroke);
        proof {
            assert(batches@.map_values(|b: Vec<KeyInput>| b@)
                =~= before.map_values(|b: Vec<KeyInput>| b@).push(stroke@));
        }
        i = i + 1;
    }
    proof {
        assert(text@.take(chars.len() as int) =~= text@);
    }
    let ghost before = batches@;
    match suffix {
        Suffix::Enter => batches.push(key_stroke_inputs(VK_RETURN, false)),
        Suffix::Tab => batches.push(key_stroke_inputs(VK_TAB, false)),
        Suffix::NoKey => {},
    }
    proof {
        match suffix {
            Suffix::NoKey => {},
            _ => {
                assert(batches@.map_values(|b: Vec<KeyInput>| b@)
                    =~= before.map_values(|b: Vec<KeyInput>| b@).push(batches@.last()@));
            },
        }
    }
    HidPlan { batches, error: None }
}

/// Once a character cannot be typed, the plan of every longer prefix is the
/// plan up to that character, with its error.
proof fn lemma_strokes_stop(s: Seq<char>, layout: Seq<i16>, i: int)
    requires
        0 <= i < s.len(),
        text_strokes(s.take(i), layout).1 is None,
        char_stroke(s[i], layout) is Err,
    ensures
        text_strokes(s, layout) == (text_strokes(s.take(i), layout).0,
            Some(char_stroke(s[i], layout)->Err_0)),
    decreases s.len() - i,
{
    if i + 1 == s.len() {
        assert(s.drop_last() =~= s.take(i));
    } else {
        assert(s.drop_last().take(i) =~= s.take(i));
        assert(s.drop_last()[i] == s[i]);
        lemma_strokes_stop(s.drop_last(), layout, i);
    }
}

/// The error when `SendInput` inserted fewer events than it was given.
pub open spec fn send_input_error(sent: nat, total: nat) -> Seq<char> {
    "SendInput failed: sent "@ + decimal(sent) + "/"@ + decimal(total) + " events"@
}

/// The error text for a `SendInput` call that inserted `sent` of `total`
/// events.
pub fn send_input_failure(sent: u32, total: usize) -> (msg: String)
    requires
        total <= u64::MAX,
    ensures
        msg@ == send_input_error(sent as nat, total as nat),
{
    let mut msg = String::from_str("SendInput failed: sent ");
    push_decimal(&mut msg, sent as u64);
    msg.append("/");
    push_decimal(&mut msg, total as u64);
    msg.append(" events");
    msg
}

/// The outcome of one `SendInput` call that was given `batch_len` events
/// and reports `sent` inserted: success when all were inserted, otherwise
/// the `SendInput failed: sent …/… events` error, which ends the typing.
pub fn send_input_result(sent: u32, batch_len: usize) -> (r: Result<(), String>)
    requires
        batch_len <= u64::MAX,
    ensures
        r is Ok <==> sent as nat == batch_len as nat,
        r matches Err(e) ==> e@ == send_input_error(sent as nat, batch_len as nat),
{
    if sent as u64 == batch_len as u64 {
        Ok(())
    } else {
        Err(send_input_failure(sent, batch_len))
    }
}

} // verus!

verus! {

/// A text with a character outside ASCII is never typed to the end: the
/// typing stops with an error at the first character that cannot be typed,
/// and the suffix key is not pressed.
pub proof fn lemma_non_ascii_stops(s: Seq<char>, layout: Seq<i16>, i: int)
    requires
        0 <= i < s.len(),
        s[i] as u32 >= 128,
    ensures
        text_strokes(s, layout).1 is Some,
    decreases s.len(),
{
    if i + 1 < s.len() {
        assert(s.drop_last()[i] == s[i]);
        lemma_non_ascii_stops(s.drop_last(), layout, i);
    }
}

} // verus!

verus! {

/// What `VkKeyScanA` gives for character `c` in `layout`.
pub open spec fn layout_scan(layout: Seq<i16>, c: char) -> i16 {
    layout[(c as u32) as int]
}

/// When every character of `s` is ASCII and has a mapping, typing `s` sends
/// one batch per character and stops with no error. The batch for the
/// `i`-th character presses and then releases the virtual key in the low
/// byte of its `VkKeyScanA` result; it is wrapped in a Shift press and
/// release exactly when bit 0 of the high byte of that result is set,
/// whichever character it is, and has no Shift event otherwise.
pub proof fn lemma_typed_batches(s: Seq<char>, layout: Seq<i16>)
    requires
        layout.len() == 128,
        forall|i: int| 0 <= i < s.len() ==> (#[trigger] s[i] as u32) < 128 && layout_scan(layout, s[i]) != -1,
    ensures
        text_strokes(s, layout).1 is None,
        text_strokes(s, layout).0.len() == s.len(),
        forall|i: int| #![trigger text_strokes(s, layout).0[i]] 0 <= i < s.len() ==> {
            let r = layout_scan(layout, s[i]);
            let vk = (r & 0xFF) as u16;
            let b = text_strokes(s, layout).0[i];
            if (r >> 8) & 1 == 1 {
                b == seq![KeyInput { vk: 0x10, flags: 0 }, KeyInput { vk, flags: 0 },
                    KeyInput { vk, flags: 2 }, KeyInput { vk: 0x10, flags: 2 }]
            } else {
                b == seq![KeyInput { vk, flags: 0 }, KeyInput { vk, flags: 2 }]
            }
        },
    decreases s.len(),
{
    if s.len() > 0 {
        let init = s.drop_last();
        assert forall|i: int| 0 <= i < init.len() implies
            (#[trigger] init[i] as u32) < 128 && layout_scan(layout, init[i]) != -1 by {
            assert(init[i] == s[i]);
        }
        lemma_typed_batches(init, layout);
        let c = s.last();
        assert((c as u32) < 128 && layout_scan(layout, c) != -1) by {
            assert(s[s.len() - 1] == c);
        }
        let r = layout_scan(layout, c);
        assert((((r >> 8) & 0xFF) & 0x01 != 0) == ((r >> 8) & 1 == 1)) by (bit_vector);
        let b = key_stroke(scan_key(r), scan_shift(r));
        let vk = (r & 0xFF) as u16;
        if (r >> 8) & 1 == 1 {
            assert(b =~= seq![KeyInput { vk: 0x10, flags: 0 }, KeyInput { vk, flags: 0 },
                KeyInput { vk, flags: 2 }, KeyInput { vk: 0x10, flags: 2 }]);
        } else {
            assert(b =~= seq![KeyInput { vk, flags: 0 }, KeyInput { vk, flags: 2 }]);
        }
        let all = text_strokes(s, layout).0;
        let before = text_strokes(init, layout).0;
        assert(all == before.push(b));
        assert forall|i: int| #![trigger all[i]] 0 <= i < s.len() implies {
            let r = layout_scan(layout, s[i]);
            let vk = (r & 0xFF) as u16;
            let b = all[i];
            if (r >> 8) & 1 == 1 {
                b == seq![KeyInput { vk: 0x10, flags: 0 }, KeyInput { vk, flags: 0 },
                    KeyInput { vk, flags: 2 }, KeyInput { vk: 0x10, flags: 2 }]
            } else {
                b == seq![KeyInput { vk, flags: 0 }, KeyInput { vk, flags: 2 }]
            }
        } by {
            if i < init.len() {
                assert(all[i] == before[i]);
                assert(init[i] == s[i]);
            } else {
                assert(s[i] == c);
            }
        }
    }
}

} // verus!
