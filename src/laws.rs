//! Laws that relate the operations on entries, files and stores.
use vstd::prelude::*;

use crate::entry::{path_in, Entry};
use crate::mapping::{map_op, mapped, unmap_op, unmapped, FileOp};
use crate::storage::Storage;

verus! {

/// Mapping bytes to a path and then unmapping it leaves no file at the path;
/// where no file stood there before, the file that mapping wrote holds exactly
/// those bytes.
pub proof fn lemma_map_then_unmap(files: Map<Seq<char>, Seq<u8>>, path: Seq<char>, bytes: Seq<u8>)
    ensures
        !unmapped(mapped(files, path, bytes), path).contains_key(path),
        !files.contains_key(path) ==> mapped(files, path, bytes).contains_key(path) && mapped(
            files,
            path,
            bytes,
        )[path] == bytes,
{
}

/// Unmapping a second time touches no file, so it cannot fail, and leaves the
/// files as the first unmapping left them.
pub proof fn lemma_unmap_twice(files: Map<Seq<char>, Seq<u8>>, path: Seq<char>)
    ensures
        unmap_op(unmapped(files, path).contains_key(path)) == FileOp::Leave,
        unmapped(unmapped(files, path), path) == unmapped(files, path),
{
}

/// Mapping an entry twice gives the same path both times, and the second
/// mapping writes nothing and leaves the files as the first one left them.
pub proof fn lemma_map_twice(entry: Entry, temp_dir: Seq<char>, files: Map<Seq<char>, Seq<u8>>)
    ensures
        ({
            let path = path_in(temp_dir, entry@.identifier);
            let once = mapped(files, path, entry@.bytes);
            &&& map_op(once.contains_key(path)) == FileOp::Leave
            &&& mapped(once, path, entry@.bytes) == once
            &&& once.contains_key(path)
        }),
{
}

/// Adding under a key that already holds an entry hands that entry back, and
/// afterwards the key holds the entry added last.
pub proof fn lemma_add_replaces(store: Storage, key: Seq<char>, first: Entry, second: Entry)
    ensures
        store@.insert(key, first).get(key) == Some(first),
        store@.insert(key, first).insert(key, second).get(key) == Some(second),
{
}

} // verus!
