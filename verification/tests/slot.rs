use providence::slot::{slot, Disconnected, SlotReader, SlotWriter};

#[test]
fn slot_exchange() {
    let (mut w, mut r): (SlotWriter<u32>, SlotReader) = slot();
    assert!(!r.is_disconnected(&w));
    assert!(r.get(&w).is_none());
    assert!(r.next(&w).is_none());
    w.update(123);
    assert_eq!(r.next(&w), Some(123));
    assert!(r.next(&w).is_none());
    assert_eq!(r.get(&w), Some(123));
    assert!(r.next(&w).is_none());
    assert!(!r.is_disconnected(&w));
    w.disconnect();
    assert!(r.is_disconnected(&w));
    assert_eq!(r.block(&w), Err(Disconnected));
    assert_eq!(r.block(&w), Err(Disconnected));
}

#[test]
fn clone() {
    let (mut w, mut r): (SlotWriter<u32>, SlotReader) = slot();
    w.update(123);
    let mut r2 = r.clone();
    assert_eq!(r.block(&w), Ok(123));
    assert_eq!(r2.block(&w), Ok(123));
}

#[test]
fn slot_latest_wins() {
    let (mut w, mut r): (SlotWriter<u32>, SlotReader) = slot();
    w.update(1);
    w.update(2);
    w.update(3);
    assert_eq!(r.next(&w), Some(3));
    assert!(r.next(&w).is_none());
}

#[test]
fn disconnect_surfaces() {
    let (mut w, mut r): (SlotWriter<u32>, SlotReader) = slot();
    w.update(42);
    let mut r2 = r.clone();
    w.disconnect();
    assert_eq!(r2.block(&w), Ok(42));
    assert_eq!(r2.block(&w), Err(Disconnected));
    assert_eq!(r.block(&w), Ok(42));
    assert_eq!(r.block(&w), Err(Disconnected));
}

#[test]
fn late_join_gets_latest() {
    let (mut w, r): (SlotWriter<&str>, SlotReader) = slot();
    w.update("first");
    w.update("second");
    w.update("third");
    // a reader that connects late still has the all-ones mark, so the
    // latest value counts as new for it
    let mut late = r.clone();
    assert_eq!(late.block(&w), Ok("third"));
    assert_eq!(late.get(&w), Some("third"));
    assert!(late.next(&w).is_none());
}

#[test]
fn get_does_not_require_fresh() {
    let (mut w, mut r): (SlotWriter<u8>, SlotReader) = slot();
    w.update(7);
    assert_eq!(r.get(&w), Some(7));
    assert_eq!(r.get(&w), Some(7));
    assert_eq!(r.get(&w), Some(7));
}
