//! A controller's download of a result file: what is checked before it
//! starts, how a kept `.partial` file is resumed, and what the received
//! bytes must add up to before the file is published.

use crate::artifacts::content_range_text;
use crate::json::{member_of, member_str, str_of};
use crate::outside::{json_document, parse_json, sha256, sha256_stream_finish, sha256_stream_new, sha256_stream_update, stream_input, uuid_parses, uuid_text, Sha256Stream};
use crate::remote_model::Artifact;
use crate::text::{concat, decimal, decimal_text, hex_lower, hex_text, owned, push_str, same_text};
use vstd::prelude::*;

verus! {

broadcast use vstd::string::group_string_axioms;

/// The largest result file a controller downloads.
pub const MAX_DOWNLOAD: u64 = 524288000;

/// The largest answer body a controller reads from an agent.
pub const MAX_RESPONSE_BYTES: usize = 2097152;

/// Why a result file cannot be downloaded at all: its id or its task id is
/// no UUID, or it is over the size limit.
pub open spec fn download_problem(a: Artifact) -> Option<Seq<char>> {
    if !uuid_text(vstd::utf8::encode_utf8(a.id@)) {
        Some("INVALID_ARTIFACT_ID"@)
    } else if !uuid_text(vstd::utf8::encode_utf8(a.task_id@)) {
        Some("INVALID_TASK_ID"@)
    } else if a.size > MAX_DOWNLOAD {
        Some("ARTIFACT_SIZE_LIMIT"@)
    } else {
        None
    }
}

/// The checks before a download starts.
pub fn check_download(artifact: &Artifact) -> (r: Result<(), String>)
    ensures
        match download_problem(*artifact) {
            None => r is Ok,
            Some(p) => r matches Err(e) && e@ == p,
        },
{
    if !uuid_parses(artifact.id.as_str()) {
        return Err(owned("INVALID_ARTIFACT_ID"));
    }
    if !uuid_parses(artifact.task_id.as_str()) {
        return Err(owned("INVALID_TASK_ID"));
    }
    if artifact.size > MAX_DOWNLOAD {
        return Err(owned("ARTIFACT_SIZE_LIMIT"));
    }
    Ok(())
}

/// The name of the partial file a download writes next to its target:
/// `.FILENAME.ARTIFACT_ID.partial`.
pub fn partial_name(filename: &str, artifact_id: &str) -> (r: String)
    ensures
        r@ == "."@ + filename@ + "."@ + artifact_id@ + ".partial"@,
{
    let mut s = owned(".");
    push_str(&mut s, filename);
    push_str(&mut s, ".");
    push_str(&mut s, artifact_id);
    push_str(&mut s, ".partial");
    s
}

/// The path of a result file on the agent:
/// `/v1/tasks/TASK_ID/artifacts/ARTIFACT_ID`.
pub fn artifact_path(task_id: &str, artifact_id: &str) -> (r: String)
    ensures
        r@ == "/v1/tasks/"@ + task_id@ + "/artifacts/"@ + artifact_id@,
{
    let mut s = owned("/v1/tasks/");
    push_str(&mut s, task_id);
    push_str(&mut s, "/artifacts/");
    push_str(&mut s, artifact_id);
    s
}

/// The check on a kept partial file of `retained` bytes: it cannot be
/// longer than the file it is part of.
pub fn check_retained(retained: u64, size: u64) -> (r: Result<(), String>)
    ensures
        r is Ok <==> retained <= size,
        r matches Err(e) ==> e@ == "DOWNLOAD_PARTIAL_SIZE_MISMATCH"@,
{
    if retained > size {
        Err(owned("DOWNLOAD_PARTIAL_SIZE_MISMATCH"))
    } else {
        Ok(())
    }
}

/// Why an agent's answer to a download request is refused: a resumed
/// download (`retained > 0`) must be answered 206 with the content range
/// from the retained length to the end, a fresh one 200.
pub open spec fn response_problem(retained: u64, size: u64, status: u16, range: Option<Seq<char>>) -> Option<Seq<char>> {
    if (retained > 0 && status != 206) || (retained == 0 && status != 200) {
        Some("DOWNLOAD_RESPONSE_MISMATCH"@)
    } else if retained > 0 && range != Some(content_range_text(retained, (size - retained) as u64, size)) {
        Some("DOWNLOAD_RANGE_MISMATCH"@)
    } else {
        None
    }
}

/// The checks on an agent's answer to a download request that asked for
/// the bytes after `retained` of `size` (`retained < size`).
pub fn check_response(retained: u64, size: u64, status: u16, content_range: Option<&str>) -> (r: Result<(), String>)
    requires
        retained < size,
    ensures
        match response_problem(retained, size, status, match content_range {
            Some(s) => Some(s@),
            None => None,
        }) {
            None => r is Ok,
            Some(p) => r matches Err(e) && e@ == p,
        },
{
    if (retained > 0 && status != 206) || (retained == 0 && status != 200) {
        return Err(owned("DOWNLOAD_RESPONSE_MISMATCH"));
    }
    if retained > 0 {
        let expected = crate::artifacts::content_range(retained, size - retained, size);
        let matches = match content_range {
            Some(s) => same_text(s, expected.as_str()),
            None => false,
        };
        if !matches {
            return Err(owned("DOWNLOAD_RANGE_MISMATCH"));
        }
    }
    Ok(())
}

/// The bytes of a result file received so far, out of its size, and the
/// running SHA-256 of the file's content: the kept bytes read back from the
/// partial file, then every chunk received.
#[derive(Debug)]
pub struct DownloadProgress {
    received: u64,
    size: u64,
    hasher: Sha256Stream,
}

/// A download's progress as plain values: the bytes held, the file's size
/// and the bytes fed to its digest.
pub struct DownloadState {
    pub received: u64,
    pub size: u64,
    pub hashed: Seq<u8>,
}

impl View for DownloadProgress {
    type V = DownloadState;

    closed spec fn view(&self) -> DownloadState {
        DownloadState { received: self.received, size: self.size, hashed: stream_input(self.hasher) }
    }
}

impl DownloadProgress {
    /// A download that already holds `retained` bytes of `size`; nothing is
    /// hashed yet.
    pub fn resume(retained: u64, size: u64) -> (r: DownloadProgress)
        requires
            retained <= size,
        ensures
            r@ == (DownloadState { received: retained, size, hashed: Seq::<u8>::empty() }),
    {
        DownloadProgress { received: retained, size, hasher: sha256_stream_new() }
    }

    /// The bytes held so far.
    pub fn received(&self) -> (n: u64)
        ensures
            n == self@.received,
    {
        self.received
    }

    /// Hashes `bytes` read back from the kept partial file; the count of
    /// bytes held does not change.
    pub fn keep(&mut self, bytes: &[u8])
        ensures
            final(self)@ == (DownloadState { hashed: old(self)@.hashed + bytes@, ..old(self)@ }),
    {
        sha256_stream_update(&mut self.hasher, bytes);
    }

    /// Accounts for a received chunk and hashes it: refused with
    /// `DOWNLOAD_SIZE_MISMATCH` once the file would pass its size.
    pub fn add(self, chunk: &[u8]) -> (r: Result<DownloadProgress, String>)
        requires
            self@.received <= self@.size,
        ensures
            r is Ok <==> self@.received + chunk@.len() <= self@.size,
            r matches Ok(p) ==> p@ == (DownloadState {
                received: (self@.received + chunk@.len()) as u64,
                size: self@.size,
                hashed: self@.hashed + chunk@,
            }),
            r matches Err(e) ==> e@ == "DOWNLOAD_SIZE_MISMATCH"@,
    {
        let len = chunk.len() as u64;
        if len > self.size - self.received {
            Err(owned("DOWNLOAD_SIZE_MISMATCH"))
        } else {
            let mut hasher = self.hasher;
            sha256_stream_update(&mut hasher, chunk);
            Ok(DownloadProgress { received: self.received + len, size: self.size, hasher })
        }
    }

    /// The check when the agent's answer ends: every byte has arrived.
    pub fn finish(&self) -> (r: Result<(), String>)
        ensures
            r is Ok <==> self@.received == self@.size,
            r matches Err(e) ==> e@ == "DOWNLOAD_INCOMPLETE"@,
    {
        if self.received != self.size {
            Err(owned("DOWNLOAD_INCOMPLETE"))
        } else {
            Ok(())
        }
    }

    /// The check before the file is published: it is complete, and the hex
    /// SHA-256 of everything hashed is the `expected` one listed for it.
    pub fn verify(self, expected: &str) -> (r: Result<(), String>)
        ensures
            r is Ok <==> self@.received == self@.size && hex_text(sha256(self@.hashed)) == expected@,
            r matches Err(e) ==> e@ == (if self@.received != self@.size {
                "DOWNLOAD_INCOMPLETE"@
            } else {
                hash_mismatch_text()
            }),
    {
        self.finish()?;
        let digest = sha256_stream_finish(self.hasher);
        let actual = hex_lower(digest.as_slice());
        check_digest(actual.as_str(), expected)
    }
}

/// The error a download ends with when the file's SHA-256 is not the one
/// listed.
pub open spec fn hash_mismatch_text() -> Seq<char> {
    "DOWNLOAD_HASH_MISMATCH: .partial 校验失败，请删除该临时文件后重试"@
}

/// The check before a downloaded file is published: its hex SHA-256 is
/// the one listed for it.
pub fn check_digest(actual: &str, expected: &str) -> (r: Result<(), String>)
    ensures
        r is Ok <==> actual@ == expected@,
        r matches Err(e) ==> e@ == hash_mismatch_text(),
{
    if !same_text(actual, expected) {
        return Err(owned("DOWNLOAD_HASH_MISMATCH: .partial 校验失败，请删除该临时文件后重试"));
    }
    Ok(())
}

/// The check on an answer body of `read` bytes before `chunk` more are
/// added.
pub fn check_response_size(read: usize, chunk: usize) -> (r: Result<(), String>)
    ensures
        r is Ok <==> read + chunk <= MAX_RESPONSE_BYTES,
        r matches Err(e) ==> e@ == "REMOTE_RESPONSE_LIMIT"@,
{
    if chunk > MAX_RESPONSE_BYTES || read > MAX_RESPONSE_BYTES - chunk {
        Err(owned("REMOTE_RESPONSE_LIMIT"))
    } else {
        Ok(())
    }
}

/// The error of an unsuccessful answer without an error message:
/// `HTTP_STATUS`.
pub fn http_error_text(status: u16) -> (r: String)
    ensures
        r@ == "HTTP_"@ + decimal_text(status as nat),
{
    let d = decimal(status as u64);
    concat("HTTP_", d.as_str())
}

/// The error an unsuccessful answer with status `status` reports: the
/// `error` text of a JSON object body, or `HTTP_STATUS` where the body is
/// no JSON or carries no such text.
pub open spec fn answer_error_text(body: Seq<u8>, status: u16) -> Seq<char> {
    match json_document(body) {
        Some(doc) => match str_of(member_of(doc, "error"@)) {
            Some(e) => e,
            None => "HTTP_"@ + decimal_text(status as nat),
        },
        None => "HTTP_"@ + decimal_text(status as nat),
    }
}

/// The error of an unsuccessful answer, read from its body.
pub fn answer_error(body: &[u8], status: u16) -> (r: String)
    ensures
        r@ == answer_error_text(body@, status),
{
    let doc = parse_json(body);
    match member_str(doc.as_ref(), "error") {
        Some(e) => e,
        None => http_error_text(status),
    }
}

/// The bytes received after a sequence of chunks, or `None` where a chunk
/// would pass the size.
pub open spec fn received_after(start: u64, size: u64, chunks: Seq<u64>) -> Option<int>
    decreases chunks.len(),
{
    if chunks.len() == 0 {
        Some(start as int)
    } else {
        match received_after(start, size, chunks.drop_last()) {
            Some(n) => if n + chunks.last() <= size {
                Some(n + chunks.last())
            } else {
                None
            },
            None => None,
        }
    }
}

/// The sum of a sequence of chunk lengths.
pub open spec fn chunk_total(chunks: Seq<u64>) -> int
    decreases chunks.len(),
{
    if chunks.len() == 0 {
        0
    } else {
        chunk_total(chunks.drop_last()) + chunks.last()
    }
}

/// A resumed download never holds more than the file's size, and it is
/// complete exactly when the retained bytes and the chunks add up to the
/// size.
pub proof fn downloads_add_up_to_the_size(start: u64, size: u64, chunks: Seq<u64>)
    requires
        start <= size,
    ensures
        received_after(start, size, chunks) matches Some(n) ==> n <= size && n == start + chunk_total(chunks),
    decreases chunks.len(),
{
    if chunks.len() > 0 {
        downloads_add_up_to_the_size(start, size, chunks.drop_last());
    }
}

} // verus!
