use std::collections::HashMap;

use kinda_virtual_fs::entry::Entry;
use kinda_virtual_fs::mapping::{map_action, unmap_action, FileOp};
use kinda_virtual_fs::storage::Storage;

/// Files in memory, keyed by path, driven by the library's decisions.
struct Disk {
    files: HashMap<String, Vec<u8>>,
    writes: usize,
}

impl Disk {
    fn new() -> Disk {
        Disk { files: HashMap::new(), writes: 0 }
    }

    fn map(&mut self, entry: &Entry) -> String {
        let path = entry.temp_path("/tmp");
        match map_action(self.files.contains_key(&path)) {
            FileOp::Write => {
                self.files.insert(path.clone(), entry.bytes().to_vec());
                self.writes += 1;
            }
            FileOp::Remove => unreachable!(),
            FileOp::Leave => {}
        }
        path
    }

    fn unmap(&mut self, entry: &Entry) {
        let path = entry.temp_path("/tmp");
        match unmap_action(self.files.contains_key(&path)) {
            FileOp::Remove => {
                self.files.remove(&path);
            }
            FileOp::Write => unreachable!(),
            FileOp::Leave => {}
        }
    }
}

#[test]
fn hello_world_maps_and_unmaps() {
    let mut disk = Disk::new();
    let entry = Entry::new(b"Hello, World!".to_vec());
    let path = disk.map(&entry);
    assert!(path.ends_with(".kvfs"));
    assert_eq!(disk.files.get(&path).unwrap(), b"Hello, World!");
    disk.unmap(&entry);
    assert!(!disk.files.contains_key(&path));
}

#[test]
fn round_trip_writes_the_bytes_and_leaves_no_file() {
    let samples: Vec<Vec<u8>> = vec![Vec::new(), vec![0], vec![0xff; 300], (0..=255).collect()];
    for (i, bytes) in samples.into_iter().enumerate() {
        let mut disk = Disk::new();
        let entry = Entry::with_timestamp(bytes.clone(), i as u128);
        let path = disk.map(&entry);
        assert_eq!(disk.files.get(&path).unwrap(), &bytes);
        disk.unmap(&entry);
        assert!(!disk.files.contains_key(&path));
    }
}

#[test]
fn unmapping_twice_changes_nothing_the_second_time() {
    let mut disk = Disk::new();
    let entry = Entry::with_timestamp(b"twice".to_vec(), 42);
    let path = disk.map(&entry);
    disk.unmap(&entry);
    assert_eq!(unmap_action(disk.files.contains_key(&path)), FileOp::Leave);
    disk.unmap(&entry);
    assert!(disk.files.is_empty());
}

#[test]
fn unmapping_an_entry_never_mapped_is_harmless() {
    let mut disk = Disk::new();
    let entry = Entry::with_timestamp(b"never".to_vec(), 7);
    disk.unmap(&entry);
    assert!(disk.files.is_empty());
}

#[test]
fn mapping_twice_gives_one_path_and_one_write() {
    let mut disk = Disk::new();
    let entry = Entry::with_timestamp(b"once".to_vec(), 99);
    let first = disk.map(&entry);
    let second = disk.map(&entry);
    assert_eq!(first, second);
    assert_eq!(disk.writes, 1);
    assert_eq!(disk.files.get(&first).unwrap(), b"once");
}

#[test]
fn colliding_identifiers_share_the_first_file() {
    let mut disk = Disk::new();
    let first = Entry::with_timestamp(b"aaaa".to_vec(), 5);
    let second = Entry::with_timestamp(b"bbbb".to_vec(), 5);
    let p1 = disk.map(&first);
    let p2 = disk.map(&second);
    assert_eq!(p1, p2);
    assert_eq!(disk.files.get(&p2).unwrap(), b"aaaa");
}

#[test]
fn stored_hello_world_maps_and_goes_away_on_remove() {
    let mut disk = Disk::new();
    let mut storage = Storage::default();
    storage.add("example", Entry::new(b"Hello, World!".to_vec()));
    let path = disk.map(storage.map("example").ok().unwrap());
    assert_eq!(disk.files.get(&path).unwrap(), b"Hello, World!");
    let removed = storage.remove("example").unwrap();
    disk.unmap(&removed);
    assert!(!disk.files.contains_key(&path));
    assert!(storage.get("example").is_none());
}
