//! Result files of a remote task: the byte ranges a download may ask for,
//! and the limits a result snapshot keeps to.

use crate::identity::{starts_with_components, under_root};
use crate::outside::{sha256, sha256_stream_finish, sha256_stream_new, sha256_stream_update, stream_input, Sha256Stream};
use crate::text::{
    chars_of, decimal, decimal_text, find_char, first_index, has_prefix, hex_lower, hex_text, owned, parse_u64_chars,
    push_str, slice_chars, starts_with, u64_text_value,
};
use vstd::prelude::*;

verus! {

broadcast use vstd::string::group_string_axioms;

/// The largest result file a snapshot copies.
pub const MAX_FILE: u64 = 524288000;

/// The largest total of result bytes a snapshot copies.
pub const MAX_TOTAL: u64 = 1073741824;

/// The number of directory entries a snapshot looks at before giving up.
pub const MAX_ENTRIES: u64 = 1000;

/// The number of result files a snapshot copies at most.
pub const MAX_FILES: u64 = 100;

/// The last byte position of a body of `size` bytes (`size.saturating_sub(1)`).
pub open spec fn last_position(size: u64) -> u64 {
    if size == 0 {
        0
    } else {
        (size - 1) as u64
    }
}

/// The end position a range names: its end text, read as a number and cut
/// to the last byte, or the last byte where the end is left out.
pub open spec fn range_end(end_text: Seq<char>, size: u64) -> Option<u64> {
    if end_text.len() == 0 {
        Some(last_position(size))
    } else {
        match u64_text_value(end_text) {
            Some(e) => Some(
                if e < last_position(size) {
                    e
                } else {
                    last_position(size)
                },
            ),
            None => None,
        }
    }
}

/// What a `Range` header asks of a body of `size` bytes: the start, the
/// length and whether the answer is partial, or the error text.
///
/// Without a header the whole body is sent. A header must read
/// `bytes=START-` or `bytes=START-END` (split at the first `-`); any other
/// form, several ranges among them, is `INVALID_RANGE`. A start at or after
/// the end of the body, or an end before the start, is
/// `RANGE_NOT_SATISFIABLE`.
pub open spec fn range_answer(header: Option<Seq<char>>, size: u64) -> Result<
    (u64, u64, bool),
    Seq<char>,
> {
    match header {
        None => Ok((0, size, false)),
        Some(h) => {
            if !starts_with(h, "bytes="@) {
                Err("INVALID_RANGE"@)
            } else {
                let value = h.skip("bytes="@.len() as int);
                match first_index(value, '-') {
                    None => Err("INVALID_RANGE"@),
                    Some(k) => match u64_text_value(value.take(k)) {
                        None => Err("INVALID_RANGE"@),
                        Some(start) => match range_end(value.skip(k + 1), size) {
                            None => Err("INVALID_RANGE"@),
                            Some(end) => if start >= size || end < start {
                                Err("RANGE_NOT_SATISFIABLE"@)
                            } else {
                                Ok((start, (end - start + 1) as u64, true))
                            },
                        },
                    },
                }
            }
        },
    }
}

/// The view of an optional string slice.
pub open spec fn opt_str_view(s: Option<&str>) -> Option<Seq<char>> {
    match s {
        Some(t) => Some(t@),
        None => None,
    }
}

/// The view of a result whose error is a `String`.
pub open spec fn text_result<T>(r: Result<T, String>) -> Result<T, Seq<char>> {
    match r {
        Ok(v) => Ok(v),
        Err(e) => Err(e@),
    }
}

/// Reads a `Range` header against a body of `size` bytes: `(start, length,
/// partial)`.
pub fn byte_range(header: Option<&str>, size: u64) -> (r: Result<(u64, u64, bool), String>)
    ensures
        text_result(r) == range_answer(opt_str_view(header), size),
        r matches Ok((start, len, partial)) ==> start + len <= size && (partial ==> len >= 1),
{
    proof {
        reveal_strlit("bytes=");
    }
    let h = match header {
        None => {
            return Ok((0, size, false));
        },
        Some(h) => h,
    };
    let v = chars_of(h);
    if !has_prefix(&v, "bytes=") {
        return Err(owned("INVALID_RANGE"));
    }
    let value = slice_chars(&v, 6, v.len());
    assert(value@ =~= h@.skip("bytes="@.len() as int));
    let k = match find_char(&value, '-') {
        None => {
            return Err(owned("INVALID_RANGE"));
        },
        Some(k) => k,
    };
    let start_text = slice_chars(&value, 0, k);
    assert(start_text@ =~= value@.take(k as int));
    let start = match parse_u64_chars(&start_text) {
        None => {
            return Err(owned("INVALID_RANGE"));
        },
        Some(s) => s,
    };
    let end_text = slice_chars(&value, k + 1, value.len());
    assert(end_text@ =~= value@.skip(k + 1));
    let last = if size == 0 {
        0
    } else {
        size - 1
    };
    let end = if end_text.len() == 0 {
        last
    } else {
        match parse_u64_chars(&end_text) {
            None => {
                return Err(owned("INVALID_RANGE"));
            },
            Some(e) => if e < last {
                e
            } else {
                last
            },
        }
    };
    if start >= size || end < start {
        return Err(owned("RANGE_NOT_SATISFIABLE"));
    }
    Ok((start, end - start + 1, true))
}

/// The `Content-Range` text of a partial answer: `bytes START-END/SIZE`.
pub open spec fn content_range_text(start: u64, len: u64, size: u64) -> Seq<char> {
    "bytes "@ + decimal_text(start as nat) + "-"@ + decimal_text((start + len - 1) as nat) + "/"@
        + decimal_text(size as nat)
}

/// The `Content-Range` header of a partial answer of `len` bytes from
/// `start`, out of `size`.
pub fn content_range(start: u64, len: u64, size: u64) -> (r: String)
    requires
        len >= 1,
        start + len <= size,
    ensures
        r@ == content_range_text(start, len, size),
{
    let mut s = owned("bytes ");
    let a = decimal(start);
    push_str(&mut s, a.as_str());
    push_str(&mut s, "-");
    let b = decimal(start + len - 1);
    push_str(&mut s, b.as_str());
    push_str(&mut s, "/");
    let c = decimal(size);
    push_str(&mut s, c.as_str());
    s
}

/// The `Range` header that resumes a download after `retained` bytes:
/// `bytes=RETAINED-`.
pub fn resume_range(retained: u64) -> (r: String)
    ensures
        r@ == "bytes="@ + decimal_text(retained as nat) + "-"@,
{
    let mut s = owned("bytes=");
    let a = decimal(retained);
    push_str(&mut s, a.as_str());
    push_str(&mut s, "-");
    s
}

/// The error a snapshot stops with once it has looked at `visited`
/// directory entries, where there are too many.
pub fn entry_check(visited: u64) -> (r: Result<(), String>)
    ensures
        r is Ok <==> visited <= MAX_ENTRIES,
        r matches Err(e) ==> e@ == "RESULT_ENTRY_LIMIT"@,
{
    if visited > MAX_ENTRIES {
        Err(owned("RESULT_ENTRY_LIMIT"))
    } else {
        Ok(())
    }
}

/// The check before a snapshot registers another file, when `files` are
/// registered already and the new file's length is `length`.
pub fn file_check(files: usize, length: u64) -> (r: Result<(), String>)
    ensures
        r is Ok <==> files < MAX_FILES && length <= MAX_FILE,
        r matches Err(e) ==> (if files >= MAX_FILES {
            e@ == "RESULT_FILE_COUNT_LIMIT"@
        } else {
            e@ == "RESULT_FILE_SIZE_LIMIT"@
        }),
{
    if files as u64 >= MAX_FILES {
        Err(owned("RESULT_FILE_COUNT_LIMIT"))
    } else if length > MAX_FILE {
        Err(owned("RESULT_FILE_SIZE_LIMIT"))
    } else {
        Ok(())
    }
}

/// The check on each directory named by a result directory's path, walked
/// from the working directory: it is a real directory, not a link.
pub fn check_result_directory(is_link: bool, is_dir: bool) -> (r: Result<(), String>)
    ensures
        r is Ok <==> !is_link && is_dir,
        r matches Err(e) ==> e@ == "RESULT_DIRECTORY_NOT_REGULAR"@,
{
    if is_link || !is_dir {
        return Err(owned("RESULT_DIRECTORY_NOT_REGULAR"));
    }
    Ok(())
}

/// The check that a resolved path, as its components, lies under the
/// resolved root it must not leave.
pub fn check_inside(path: &Vec<Vec<u8>>, root: &Vec<Vec<u8>>) -> (r: Result<(), String>)
    ensures
        r is Ok <==> under_root(path.deep_view(), root.deep_view()),
        r matches Err(e) ==> e@ == "RESULT_PATH_ESCAPE"@,
{
    if !starts_with_components(path, root) {
        return Err(owned("RESULT_PATH_ESCAPE"));
    }
    Ok(())
}

/// What a directory entry met in the walk is.
#[derive(Debug, Clone, Copy, PartialEq, Eq, Structural)]
pub enum EntryKind {
    Directory,
    File,
}

/// The walk's decision on an entry, in this order: a link is refused, a
/// directory is walked, a regular file is copied, anything else is
/// refused.
pub fn entry_kind(is_link: bool, is_dir: bool, is_file: bool) -> (r: Result<EntryKind, String>)
    ensures
        is_link ==> (r matches Err(e) && e@ == "RESULT_SYMLINK_REJECTED"@),
        !is_link && is_dir ==> r == Ok::<EntryKind, String>(EntryKind::Directory),
        !is_link && !is_dir && is_file ==> r == Ok::<EntryKind, String>(EntryKind::File),
        !is_link && !is_dir && !is_file ==> (r matches Err(e) && e@ == "RESULT_SPECIAL_FILE_REJECTED"@),
{
    if is_link {
        return Err(owned("RESULT_SYMLINK_REJECTED"));
    }
    if is_dir {
        return Ok(EntryKind::Directory);
    }
    if !is_file {
        return Err(owned("RESULT_SPECIAL_FILE_REJECTED"));
    }
    Ok(EntryKind::File)
}

/// The check on a result file once it is open: the handle is a regular
/// file and no link.
pub fn check_opened_file(is_file: bool, is_link: bool) -> (r: Result<(), String>)
    ensures
        r is Ok <==> is_file && !is_link,
        r matches Err(e) ==> e@ == "RESULT_NOT_REGULAR_FILE"@,
{
    if !is_file || is_link {
        return Err(owned("RESULT_NOT_REGULAR_FILE"));
    }
    Ok(())
}

/// The bytes copied so far, of the current file and of the whole snapshot,
/// and the running SHA-256 of the current file's bytes.
#[derive(Debug)]
pub struct CopyProgress {
    file: u64,
    total: u64,
    hasher: Sha256Stream,
}

/// A copy's progress as plain values: the bytes of the current file, of the
/// whole snapshot, and the current file's bytes fed to its digest.
pub struct CopyState {
    pub file: u64,
    pub total: u64,
    pub copied: Seq<u8>,
}

impl View for CopyProgress {
    type V = CopyState;

    closed spec fn view(&self) -> CopyState {
        CopyState { file: self.file, total: self.total, copied: stream_input(self.hasher) }
    }
}

impl CopyProgress {
    /// Nothing copied yet.
    pub fn new() -> (r: CopyProgress)
        ensures
            r@ == (CopyState { file: 0, total: 0, copied: Seq::<u8>::empty() }),
    {
        CopyProgress { file: 0, total: 0, hasher: sha256_stream_new() }
    }

    /// The bytes of the current file copied so far.
    pub fn file(&self) -> (n: u64)
        ensures
            n == self@.file,
    {
        self.file
    }

    /// The bytes of the whole snapshot copied so far.
    pub fn total(&self) -> (n: u64)
        ensures
            n == self@.total,
    {
        self.total
    }

    /// Accounts for a chunk read from the current file and hashes it: the
    /// new progress, or `RESULT_SIZE_LIMIT` once the file or the total passes
    /// its limit.
    pub fn add(self, chunk: &[u8]) -> (r: Result<CopyProgress, String>)
        requires
            self@.file <= MAX_FILE,
            self@.total <= MAX_TOTAL,
        ensures
            r is Ok <==> self@.file + chunk@.len() <= MAX_FILE && self@.total + chunk@.len() <= MAX_TOTAL,
            r matches Ok(p) ==> p@ == (CopyState {
                file: (self@.file + chunk@.len()) as u64,
                total: (self@.total + chunk@.len()) as u64,
                copied: self@.copied + chunk@,
            }),
            r matches Err(e) ==> e@ == "RESULT_SIZE_LIMIT"@,
    {
        let count = chunk.len() as u64;
        if count > MAX_FILE - self.file || count > MAX_TOTAL - self.total {
            Err(owned("RESULT_SIZE_LIMIT"))
        } else {
            let mut hasher = self.hasher;
            sha256_stream_update(&mut hasher, chunk);
            Ok(CopyProgress { file: self.file + count, total: self.total + count, hasher })
        }
    }

    /// Ends the current file: its size and the hex SHA-256 of its bytes for
    /// the list of result files, and the progress for the next file, which
    /// keeps the snapshot's total.
    pub fn finish_file(self) -> (r: (u64, String, CopyProgress))
        ensures
            r.0 == self@.file,
            r.1@ == hex_text(sha256(self@.copied)),
            r.2@ == (CopyState { file: 0, total: self@.total, copied: Seq::<u8>::empty() }),
    {
        let digest = sha256_stream_finish(self.hasher);
        (self.file, hex_lower(digest.as_slice()), CopyProgress { file: 0, total: self.total, hasher: sha256_stream_new() })
    }
}

} // verus!
