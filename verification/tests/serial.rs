use barcode_keyboard::Suffix;
use barcode_keyboard::serial::serial_payload;

#[test]
fn serial_suffixes() {
    assert_eq!(serial_payload("123", Suffix::Enter), "123\r\n");
    assert_eq!(serial_payload("123", Suffix::Tab), "123\t");
    assert_eq!(serial_payload("123", Suffix::NoKey), "123");
}
