use barcode_keyboard::hid::windows::{
    KEYEVENTF_KEYUP, KeyInput, Suffix, VK_RETURN, VK_SHIFT, VK_TAB, create_input,
    inject_hid_reports_windows, key_stroke_inputs, send_input_failure, send_input_result,
};

/// A US-like layout: letters and digits map to their own virtual keys,
/// upper case with Shift; space, '-' and '.' are mapped; the rest is not.
fn layout() -> Vec<i16> {
    let mut t = vec![-1i16; 128];
    for b in b'a'..=b'z' {
        t[b as usize] = (b - b'a' + 0x41) as i16;
    }
    for b in b'A'..=b'Z' {
        t[b as usize] = 0x100 | b as i16;
    }
    for b in b'0'..=b'9' {
        t[b as usize] = b as i16;
    }
    t[b' ' as usize] = 0x20;
    t[b'-' as usize] = 0xBD;
    t[b'.' as usize] = 0xBE;
    t
}

/// What `VkKeyScanA` gives for the printable ASCII characters on a US
/// keyboard layout (low byte: virtual key; bit 8: Shift).
fn us_layout() -> Vec<i16> {
    let mut t = layout();
    let shifted_digits = b")!@#$%^&*(";
    for (d, c) in shifted_digits.iter().enumerate() {
        t[*c as usize] = 0x130 + d as i16;
    }
    let pairs: [(u8, u8, i16); 11] = [
        (b';', b':', 0xBA), (b'=', b'+', 0xBB), (b',', b'<', 0xBC), (b'-', b'_', 0xBD),
        (b'.', b'>', 0xBE), (b'/', b'?', 0xBF), (b'`', b'~', 0xC0), (b'[', b'{', 0xDB),
        (b'\\', b'|', 0xDC), (b']', b'}', 0xDD), (b'\'', b'"', 0xDE),
    ];
    for (plain, shifted, vk) in pairs {
        t[plain as usize] = vk;
        t[shifted as usize] = 0x100 | vk;
    }
    t
}

fn send_char(ch: char) -> Result<(), String> {
    match inject_hid_reports_windows(&ch.to_string(), Suffix::NoKey, &us_layout()).error {
        Some(e) => Err(e),
        None => Ok(()),
    }
}

#[test]
fn test_ascii_characters() {
    for ch in b'a'..=b'z' {
        let result = send_char(ch as char);
        assert!(result.is_ok(), "Failed to map character: {}", ch as char);
    }

    for ch in b'A'..=b'Z' {
        let result = send_char(ch as char);
        assert!(result.is_ok(), "Failed to map character: {}", ch as char);
    }

    for ch in b'0'..=b'9' {
        let result = send_char(ch as char);
        assert!(result.is_ok(), "Failed to map character: {}", ch as char);
    }
}

#[test]
fn test_special_chars() {
    let test_chars = vec![' ', '-', '_', '.', ',', '!', '@', '#'];
    for ch in test_chars {
        let result = send_char(ch);
        assert!(
            result.is_ok(),
            "Failed to map special character: '{}'",
            ch
        );
    }
}

#[test]
fn test_non_ascii_rejected() {
    let result = send_char('é');
    assert!(result.is_err(), "Non-ASCII character should be rejected");
}

fn down(vk: u16) -> KeyInput {
    KeyInput { vk, flags: 0 }
}

fn up(vk: u16) -> KeyInput {
    KeyInput { vk, flags: KEYEVENTF_KEYUP }
}

#[test]
fn inputs() {
    assert_eq!(create_input(0x41, false), down(0x41));
    assert_eq!(create_input(0x41, true), up(0x41));
    assert_eq!(key_stroke_inputs(0x41, false), vec![down(0x41), up(0x41)]);
    assert_eq!(key_stroke_inputs(0x41, true), vec![down(VK_SHIFT), down(0x41), up(0x41), up(VK_SHIFT)]);
}

#[test]
fn plan_for_ascii_text() {
    let plan = inject_hid_reports_windows("aB", Suffix::Enter, &layout());
    assert_eq!(plan.error, None);
    assert_eq!(
        plan.batches,
        vec![
            vec![down(0x41), up(0x41)],
            vec![down(VK_SHIFT), down(0x42), up(0x42), up(VK_SHIFT)],
            vec![down(VK_RETURN), up(VK_RETURN)],
        ]
    );
    let tab = inject_hid_reports_windows("", Suffix::Tab, &layout());
    assert_eq!(tab.batches, vec![vec![down(VK_TAB), up(VK_TAB)]]);
    let none = inject_hid_reports_windows("1", Suffix::NoKey, &layout());
    assert_eq!(none.batches, vec![vec![down(0x31), up(0x31)]]);
}

#[test]
fn non_ascii_stops_typing() {
    let plan = inject_hid_reports_windows("aéb", Suffix::Enter, &layout());
    assert_eq!(plan.batches, vec![vec![down(0x41), up(0x41)]]);
    assert_eq!(plan.error, Some("Non-ASCII character not supported: 'é'".to_string()));
}

#[test]
fn unmapped_character_stops_typing() {
    let plan = inject_hid_reports_windows("a!b", Suffix::Tab, &layout());
    assert_eq!(plan.batches, vec![vec![down(0x41), up(0x41)]]);
    assert_eq!(plan.error, Some("Character '!' has no VK mapping".to_string()));
}

#[test]
fn letters_digits_and_specials_are_planned() {
    let plan = inject_hid_reports_windows("azAZ09 -.", Suffix::NoKey, &layout());
    assert_eq!(plan.error, None);
    assert_eq!(plan.batches.len(), 9);
}

#[test]
fn send_input_error_text() {
    assert_eq!(send_input_failure(2, 4), "SendInput failed: sent 2/4 events");
}

#[test]
fn send_input_outcome() {
    assert_eq!(send_input_result(4, 4), Ok(()));
    assert_eq!(send_input_result(0, 2), Err("SendInput failed: sent 0/2 events".to_string()));
    assert_eq!(send_input_result(3, 2), Err("SendInput failed: sent 3/2 events".to_string()));
}
