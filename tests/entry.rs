use kinda_virtual_fs::entry::Entry;
use kinda_virtual_fs::hex::to_hex;
use kinda_virtual_fs::mapping::{map_action, unmap_action, FileOp};

#[test]
fn hex_text_of_small_and_large_values() {
    assert_eq!(to_hex(0), "0");
    assert_eq!(to_hex(9), "9");
    assert_eq!(to_hex(10), "a");
    assert_eq!(to_hex(255), "ff");
    assert_eq!(to_hex(256), "100");
    assert_eq!(to_hex(0xdead_beef), "deadbeef");
    assert_eq!(to_hex(u128::MAX), "ffffffffffffffffffffffffffffffff");
}

#[test]
fn hex_text_agrees_with_format() {
    for n in [1u128, 15, 16, 4095, 1_700_000_000_123_456, u64::MAX as u128] {
        assert_eq!(to_hex(n), format!("{:x}", n));
    }
}

#[test]
fn identifier_from_timestamp_and_length() {
    let entry = Entry::with_timestamp(b"Hello, World!".to_vec(), 0x5f3e_1a2b);
    assert_eq!(entry.identifier(), "5f3e1a2b-d.kvfs");
    assert_eq!(entry.bytes(), b"Hello, World!");
}

#[test]
fn identifier_of_empty_entry_at_zero_time() {
    let entry = Entry::with_timestamp(Vec::new(), 0);
    assert_eq!(entry.identifier(), "0-0.kvfs");
    assert!(entry.bytes().is_empty());
}

#[test]
fn new_entry_keeps_bytes_and_names_file_after_length() {
    let entry = Entry::new(b"Hello, World!".to_vec());
    assert_eq!(entry.bytes(), b"Hello, World!");
    assert_eq!(entry.bytes().len(), 13);
    let id = entry.identifier();
    assert!(id.ends_with("-d.kvfs"));
    let stamp = &id[..id.len() - "-d.kvfs".len()];
    assert!(!stamp.is_empty());
    assert!(u128::from_str_radix(stamp, 16).is_ok());
    // The clock has moved past the epoch on any machine that runs this.
    assert_ne!(stamp, "0");
}

#[test]
fn temp_path_joins_directory_and_identifier() {
    let entry = Entry::with_timestamp(b"abc".to_vec(), 255);
    assert_eq!(entry.temp_path("/tmp"), "/tmp/ff-3.kvfs");
    assert_eq!(entry.temp_path(""), "/ff-3.kvfs");
}

#[test]
fn temp_path_is_the_same_on_every_call() {
    let entry = Entry::new(b"Hello, World!".to_vec());
    let first = entry.temp_path("/var/tmp");
    let second = entry.temp_path("/var/tmp");
    assert_eq!(first, second);
    assert!(first.ends_with(".kvfs"));
}

#[test]
fn map_writes_only_when_no_file_is_present() {
    assert_eq!(map_action(false), FileOp::Write);
    assert_eq!(map_action(true), FileOp::Leave);
}

#[test]
fn unmap_removes_only_when_a_file_is_present() {
    assert_eq!(unmap_action(true), FileOp::Remove);
    assert_eq!(unmap_action(false), FileOp::Leave);
}
