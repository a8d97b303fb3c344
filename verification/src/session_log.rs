//! Rolling log files for terminal session output.
//!
//! A log is cut back to its last bytes when it is opened; afterwards output is
//! appended without further rotation. The application log is cut back in the
//! same way after each record.

use crate::scrollback;
use crate::text;
use crate::text::after_last;
use vstd::prelude::*;
use vstd::string::*;

verus! {

/// The mode with which log files are created: for the owner alone.
pub const LOG_MODE: u32 = 0o600;

/// An open session log.
#[derive(Debug)]
pub struct SessionLog {
    /// Maximum size in bytes.  The file is trimmed to this on open.
    pub max_size: usize,
}

/// How to cut a file back to its last bytes.
#[derive(Clone, Copy, Debug, PartialEq, Eq)]
pub enum Rotation {
    /// Leave it alone.
    Keep,
    /// Make it empty.
    Clear,
    /// Keep the `len` bytes from `offset` on.
    KeepTail { offset: u64, len: usize },
}

/// How to cut a file of `size` bytes back to `max_size`.
pub open spec fn rotation_for(size: u64, max_size: usize) -> Rotation {
    if size <= max_size {
        Rotation::Keep
    } else if max_size == 0 {
        Rotation::Clear
    } else {
        Rotation::KeepTail { offset: (size - max_size) as u64, len: max_size }
    }
}

/// Decide how to cut a file of `size` bytes back to `max_size`.
pub fn rotate(size: u64, max_size: usize) -> (r: Rotation)
    ensures
        r == rotation_for(size, max_size),
{
    if size <= max_size as u64 {
        Rotation::Keep
    } else if max_size == 0 {
        Rotation::Clear
    } else {
        Rotation::KeepTail { offset: size - max_size as u64, len: max_size }
    }
}

impl Rotation {
    /// What to put in place of the file's contents when `read` was read where
    /// this rotation says, or `None` to leave them. A tail that cannot be read
    /// leaves the file alone.
    pub open spec fn replacement(self, read: Seq<u8>) -> Option<Seq<u8>> {
        match self {
            Rotation::Keep => None,
            Rotation::Clear => Some(Seq::empty()),
            Rotation::KeepTail { offset, len } => if read.len() > 0 {
                Some(read)
            } else {
                None
            },
        }
    }

    /// What to put in place of the file's contents when `read` was read where
    /// this rotation says, or `None` to leave them.
    pub fn new_contents(self, read: Vec<u8>) -> (r: Option<Vec<u8>>)
        ensures
            self.replacement(read@) == (match r {
                Some(b) => Some(b@),
                None => None,
            }),
    {
        match self {
            Rotation::Keep => None,
            Rotation::Clear => {
                let empty: Vec<u8> = Vec::new();
                assert(empty@ =~= Seq::<u8>::empty());
                Some(empty)
            },
            Rotation::KeepTail { offset: _, len: _ } => {
                if read.len() > 0 {
                    Some(read)
                } else {
                    None
                }
            },
        }
    }
}

/// The contents of a file after a rotation to `max_size` that read what it
/// asked for.
pub open spec fn rotated(contents: Seq<u8>, max_size: usize) -> Seq<u8> {
    let how = rotation_for(contents.len() as u64, max_size);
    let read = match how {
        Rotation::KeepTail { offset, len } => contents.subrange(offset as int, offset + len),
        _ => Seq::empty(),
    };
    match how.replacement(read) {
        Some(new) => new,
        None => contents,
    }
}

/// A rotation keeps exactly the last `max_size` bytes of a file, or all of them
/// where there are no more.
pub proof fn rotation_keeps_the_end(contents: Seq<u8>, max_size: usize)
    requires
        contents.len() <= u64::MAX,
    ensures
        rotated(contents, max_size) == scrollback::last_bytes(contents, max_size as nat),
        rotated(contents, max_size).len() <= max_size,
{
    let n = max_size as nat;
    assert(rotated(contents, max_size) =~= scrollback::last_bytes(contents, n));
}

/// Rotating a file again changes nothing.
pub proof fn rotation_is_idempotent(contents: Seq<u8>, max_size: usize)
    requires
        contents.len() <= u64::MAX,
    ensures
        rotated(rotated(contents, max_size), max_size) == rotated(contents, max_size),
{
    rotation_keeps_the_end(contents, max_size);
    rotation_keeps_the_end(rotated(contents, max_size), max_size);
}

impl SessionLog {
    /// Open a log whose file has `size` bytes, keeping at most `max_size`
    /// bytes, and tell how to cut the file back.
    pub fn open(size: u64, max_size: usize) -> (r: (SessionLog, Rotation))
        ensures
            r.0.max_size == max_size,
            r.1 == rotation_for(size, max_size),
    {
        (SessionLog { max_size }, rotate(size, max_size))
    }

    /// The bytes to append to the file when the session ends.
    pub fn close(self, progname: &str, sockname: &str) -> (marker: String)
        ensures
            marker@ == end_marker(progname@, sockname@),
    {
        let mut marker: String = "\r\n[".to_owned();
        marker.append(progname);
        marker.append(": session '");
        marker.append(after_last(sockname, '/'));
        marker.append("' ended]\r\n");
        marker
    }
}

/// The line that ends the log of a session.
pub open spec fn end_marker(progname: Seq<char>, sockname: Seq<char>) -> Seq<char> {
    "\r\n["@ + progname + ": session '"@ + text::last_piece(sockname, '/') + "' ended]\r\n"@
}

/// The path of the log that belongs to a session's socket.
pub open spec fn log_path(sockname: Seq<char>) -> Seq<char> {
    sockname + ".log"@
}

/// The path of the log that belongs to a session's socket.
pub fn log_path_of(sockname: &str) -> (r: String)
    ensures
        r@ == log_path(sockname@),
{
    let mut r: String = sockname.to_owned();
    r.append(".log");
    r
}

} // verus!
