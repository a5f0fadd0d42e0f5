use barcode_keyboard::Suffix;
use barcode_keyboard::config::{Config, Transform};
use barcode_keyboard::inject::{
    KeyboardMode, apply_transform, keyboard_mode, powershell_command, sendkeys_escape, typed_text,
    xdotool_suffix_key,
};

#[test]
fn keyboard_mode_choice() {
    assert_eq!(keyboard_mode(true, true, true), KeyboardMode::PowerShell);
    assert_eq!(keyboard_mode(true, false, false), KeyboardMode::PowerShell);
    assert_eq!(keyboard_mode(false, true, true), KeyboardMode::XDotool);
    assert_eq!(keyboard_mode(false, true, false), KeyboardMode::Enigo);
    assert_eq!(keyboard_mode(false, false, true), KeyboardMode::PrintOnly);
}

#[test]
fn transforms() {
    assert_eq!(apply_transform(" Ab-1 ", Transform::Keep), " Ab-1 ");
    assert_eq!(apply_transform(" Ab-1 ", Transform::Upper), " AB-1 ");
    assert_eq!(apply_transform(" Ab-1 ", Transform::Lower), " ab-1 ");
    assert_eq!(apply_transform("\t Ab-1 \n", Transform::Trim), "Ab-1");
    assert_eq!(apply_transform("straße", Transform::Upper), "STRASSE");
}

#[test]
fn typed_text_has_prefix() {
    let mut c = Config::default();
    c.prefix = "ITEM:".to_string();
    c.transform = Transform::Upper;
    assert_eq!(typed_text("abc", &c), "ITEM:ABC");
}

#[test]
fn sendkeys_escaping() {
    assert_eq!(sendkeys_escape("a+b^c%d~e(f)g[h]i{j}k"), "a{+}b{^}c{%}d{~}e{(}f{)}g{[}h{]}i{{}j{}}k");
    assert_eq!(sendkeys_escape("plain 123"), "plain 123");
    assert_eq!(sendkeys_escape("it's"), "it''s");
    assert_eq!(sendkeys_escape("'{'}"), "''{{}''{}}");
    assert_eq!(sendkeys_escape("a\u{2018}b\u{2019}c\u{201a}\u{201b}"),
        "a\u{2018}\u{2018}b\u{2019}\u{2019}c\u{201a}\u{201a}\u{201b}\u{201b}");
}

#[test]
fn powershell_commands() {
    assert_eq!(
        powershell_command("a+b", Suffix::NoKey),
        "Add-Type -AssemblyName System.Windows.Forms; [System.Windows.Forms.SendKeys]::SendWait('a{+}b')"
    );
    assert_eq!(
        powershell_command("x", Suffix::Enter),
        "Add-Type -AssemblyName System.Windows.Forms; [System.Windows.Forms.SendKeys]::SendWait('x'); [System.Windows.Forms.SendKeys]::SendWait('{ENTER}')"
    );
    assert_eq!(
        powershell_command("x", Suffix::Tab),
        "Add-Type -AssemblyName System.Windows.Forms; [System.Windows.Forms.SendKeys]::SendWait('x'); [System.Windows.Forms.SendKeys]::SendWait('{TAB}')"
    );
}

#[test]
fn powershell_command_with_apostrophe() {
    assert_eq!(
        powershell_command("it's", Suffix::NoKey),
        "Add-Type -AssemblyName System.Windows.Forms; [System.Windows.Forms.SendKeys]::SendWait('it''s')"
    );
}

#[test]
fn case_twice_is_case_once_on_ascii() {
    let up = apply_transform("Code-128 x", Transform::Upper);
    assert_eq!(up, "CODE-128 X");
    assert_eq!(apply_transform(&up, Transform::Upper), up);
    let low = apply_transform("Code-128 X", Transform::Lower);
    assert_eq!(low, "code-128 x");
    assert_eq!(apply_transform(&low, Transform::Lower), low);
}

#[test]
fn trim_twice_is_trim_once() {
    let once = apply_transform(" \u{a0}a b\t", Transform::Trim);
    assert_eq!(once, "a b");
    assert_eq!(apply_transform(&once, Transform::Trim), once);
}

#[test]
fn xdotool_keys() {
    assert_eq!(xdotool_suffix_key(Suffix::Enter), Some("Return"));
    assert_eq!(xdotool_suffix_key(Suffix::Tab), Some("Tab"));
    assert_eq!(xdotool_suffix_key(Suffix::NoKey), None);
}
