//! Limits on what the file-system table reads, writes and copies for a
//! plugin, decided from the metadata and lengths the host measured.

use vstd::prelude::*;
use crate::text::str_concat;

verus! {

/// Largest file `read_file` and `read_lines` return, in bytes.
pub const READ_FILE_BYTE_LIMIT: u64 = 8388608;
/// Largest content `write_file` writes, in bytes.
pub const WRITE_FILE_BYTE_LIMIT: u64 = 8388608;
/// Largest content `append_file` appends, in bytes.
pub const APPEND_FILE_BYTE_LIMIT: u64 = 8388608;
/// Largest file `copy` copies, in bytes.
pub const COPY_BYTE_LIMIT: u64 = 8388608;

/// The refusal for a path that is not a regular file.
pub open spec fn not_regular_message(path: Seq<char>) -> Seq<char> {
    "not a regular file: "@ + path
}

/// Whether a file of kind `is_file` and `len` bytes may be read, and the
/// refusal when not.
pub fn check_read(path: &str, is_file: bool, len: u64) -> (r: Result<(), String>)
    ensures
        match r {
            Ok(()) => is_file && len <= READ_FILE_BYTE_LIMIT,
            Err(m) => if !is_file {
                m@ == not_regular_message(path@)
            } else {
                len > READ_FILE_BYTE_LIMIT && m@ == "file exceeds 8388608-byte read_file limit: "@
                    + path@
            },
        },
{
    if !is_file {
        return Err(str_concat("not a regular file: ", path));
    }
    if len > READ_FILE_BYTE_LIMIT {
        return Err(str_concat("file exceeds 8388608-byte read_file limit: ", path));
    }
    Ok(())
}

/// Whether a copy source of kind `is_file` and `len` bytes may be copied.
pub fn check_copy_source(src: &str, is_file: bool, len: u64) -> (r: Result<(), String>)
    ensures
        match r {
            Ok(()) => is_file && len <= COPY_BYTE_LIMIT,
            Err(m) => if !is_file {
                m@ == not_regular_message(src@)
            } else {
                len > COPY_BYTE_LIMIT && m@ == "source exceeds 8388608-byte copy limit: "@ + src@
            },
        },
{
    if !is_file {
        return Err(str_concat("not a regular file: ", src));
    }
    if len > COPY_BYTE_LIMIT {
        return Err(str_concat("source exceeds 8388608-byte copy limit: ", src));
    }
    Ok(())
}

/// Whether `content_len` bytes may be written to `path`.
pub fn check_write(path: &str, content_len: usize) -> (r: Result<(), String>)
    ensures
        match r {
            Ok(()) => content_len <= WRITE_FILE_BYTE_LIMIT,
            Err(m) => content_len > WRITE_FILE_BYTE_LIMIT && m@
                == "content exceeds 8388608-byte write_file limit: "@ + path@,
        },
{
    if content_len as u128 > WRITE_FILE_BYTE_LIMIT as u128 {
        return Err(str_concat("content exceeds 8388608-byte write_file limit: ", path));
    }
    Ok(())
}

/// Whether `content_len` bytes may be appended to `path`.
pub fn check_append(path: &str, content_len: usize) -> (r: Result<(), String>)
    ensures
        match r {
            Ok(()) => content_len <= APPEND_FILE_BYTE_LIMIT,
            Err(m) => content_len > APPEND_FILE_BYTE_LIMIT && m@
                == "content exceeds 8388608-byte append_file limit: "@ + path@,
        },
{
    if content_len as u128 > APPEND_FILE_BYTE_LIMIT as u128 {
        return Err(str_concat("content exceeds 8388608-byte append_file limit: ", path));
    }
    Ok(())
}

} // verus!
