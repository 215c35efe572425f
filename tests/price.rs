use budget_chat::price::{evaluate_transaction, Transaction};

#[test]
fn decodes_record() {
    let buffer: [u8; 9] = [0x49, 0x00, 0x00, 0x30, 0x39, 0x00, 0x00, 0x00, 0x65];
    assert_eq!(evaluate_transaction(&buffer), Transaction { amount: 101, timestamp: 12345 });
}

#[test]
fn decodes_negative_values() {
    let buffer: [u8; 9] = [0x49, 0xff, 0xff, 0xff, 0xff, 0x80, 0x00, 0x00, 0x00];
    assert_eq!(evaluate_transaction(&buffer), Transaction { amount: i32::MIN, timestamp: -1 });
}

#[test]
fn decodes_extremes() {
    let buffer: [u8; 9] = [0x51, 0x7f, 0xff, 0xff, 0xff, 0x00, 0x00, 0x00, 0x00];
    assert_eq!(evaluate_transaction(&buffer), Transaction { amount: 0, timestamp: i32::MAX });
}
