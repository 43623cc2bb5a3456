//! What mapping and unmapping an entry do to the files of a directory.
//!
//! The files are modelled as a map from path to content. Mapping writes the
//! entry's bytes only where no file stands at its path yet; unmapping removes
//! the file only where one stands. The caller looks at the file system, asks
//! for the action, and performs it.
use vstd::prelude::*;

verus! {

/// A single action on the file at an entry's path.
#[derive(Debug, Clone, Copy, PartialEq, Eq, Structural)]
pub enum FileOp {
    /// Create or overwrite the file with the entry's bytes.
    Write,
    /// Delete the file.
    Remove,
    /// Leave the file system as it is.
    Leave,
}

/// The action that mapping takes, given whether a file is already present.
pub open spec fn map_op(present: bool) -> FileOp {
    if present { FileOp::Leave } else { FileOp::Write }
}

/// The action that unmapping takes, given whether a file is present.
pub open spec fn unmap_op(present: bool) -> FileOp {
    if present { FileOp::Remove } else { FileOp::Leave }
}

/// The files after `op` is performed on `path`, writing `bytes` for a write.
pub open spec fn apply_op(
    files: Map<Seq<char>, Seq<u8>>,
    path: Seq<char>,
    op: FileOp,
    bytes: Seq<u8>,
) -> Map<Seq<char>, Seq<u8>> {
    match op {
        FileOp::Write => files.insert(path, bytes),
        FileOp::Remove => files.remove(path),
        FileOp::Leave => files,
    }
}

/// The files after mapping `bytes` to `path`.
pub open spec fn mapped(files: Map<Seq<char>, Seq<u8>>, path: Seq<char>, bytes: Seq<u8>) -> Map<
    Seq<char>,
    Seq<u8>,
> {
    apply_op(files, path, map_op(files.contains_key(path)), bytes)
}

/// The files after unmapping `path`.
pub open spec fn unmapped(files: Map<Seq<char>, Seq<u8>>, path: Seq<char>) -> Map<
    Seq<char>,
    Seq<u8>,
> {
    apply_op(files, path, unmap_op(files.contains_key(path)), Seq::empty())
}

/// Decides what mapping does: write the bytes unless a file is already present.
pub fn map_action(present: bool) -> (r: FileOp)
    ensures
        r == map_op(present),
{
    if present {
        FileOp::Leave
    } else {
        FileOp::Write
    }
}

/// Decides what unmapping does: remove the file if one is present.
pub fn unmap_action(present: bool) -> (r: FileOp)
    ensures
        r == unmap_op(present),
{
    if present {
        FileOp::Remove
    } else {
        FileOp::Leave
    }
}

} // verus!
