//! A byte blob together with the name of the temporary file it maps to.
use vstd::prelude::*;

use crate::clock::micros_now;
use crate::hex::{hex_text, push_hex};

verus! {

/// The file name of a blob of `len` bytes created at `micros` microseconds
/// after the Unix epoch: `<micros in hex>-<len in hex>.kvfs`.
pub open spec fn identifier_text(micros: nat, len: nat) -> Seq<char> {
    hex_text(micros) + seq!['-'] + hex_text(len) + seq!['.', 'k', 'v', 'f', 's']
}

/// The path of the file named `identifier` inside the directory `dir`.
pub open spec fn path_in(dir: Seq<char>, identifier: Seq<char>) -> Seq<char> {
    dir + seq!['/'] + identifier
}

/// What an entry is, mathematically: its bytes and its file name.
pub ghost struct EntryView {
    pub bytes: Seq<u8>,
    pub identifier: Seq<char>,
}

/// An owned byte buffer and the file name under which it is mapped.
/// Neither changes after construction.
#[derive(Debug, Clone)]
pub struct Entry {
    bytes: Vec<u8>,
    identifier: String,
}

impl View for Entry {
    type V = EntryView;

    closed spec fn view(&self) -> EntryView {
        EntryView { bytes: self.bytes@, identifier: self.identifier@ }
    }
}

impl Entry {
    /// An entry holding `bytes`, named after the current wall-clock time in
    /// microseconds (zero when the clock cannot be read) and the byte count.
    pub fn new(bytes: Vec<u8>) -> (r: Entry)
        ensures
            r@.bytes == bytes@,
            exists|micros: nat| r@.identifier == identifier_text(micros, bytes@.len()),
    {
        let micros = micros_now();
        Entry::with_timestamp(bytes, micros)
    }

    /// An entry holding `bytes`, named after the timestamp `micros` and the
    /// byte count.
    pub fn with_timestamp(bytes: Vec<u8>, micros: u128) -> (r: Entry)
        ensures
            r@.bytes == bytes@,
            r@.identifier == identifier_text(micros as nat, bytes@.len()),
    {
        let mut identifier = String::new();
        push_hex(&mut identifier, micros);
        proof {
            reveal_strlit("-");
            reveal_strlit(".kvfs");
        }
        identifier.append("-");
        push_hex(&mut identifier, bytes.len() as u128);
        identifier.append(".kvfs");
        proof {
            assert(identifier@ =~= identifier_text(micros as nat, bytes@.len()));
        }
        Entry { bytes, identifier }
    }

    /// The stored bytes.
    pub fn bytes(&self) -> (r: &[u8])
        ensures
            r@ == self@.bytes,
    {
        self.bytes.as_slice()
    }

    /// The name of the file this entry maps to.
    pub fn identifier(&self) -> (r: &str)
        ensures
            r@ == self@.identifier,
    {
        self.identifier.as_str()
    }

    /// The path this entry maps to inside the temporary directory `temp_dir`.
    pub fn temp_path(&self, temp_dir: &str) -> (r: String)
        ensures
            r@ == path_in(temp_dir@, self@.identifier),
    {
        let mut path = String::from_str(temp_dir);
        proof {
            reveal_strlit("/");
        }
        path.append("/");
        path.append(self.identifier.as_str());
        proof {
            assert(path@ =~= path_in(temp_dir@, self@.identifier));
        }
        path
    }
}

} // verus!
