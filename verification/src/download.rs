//! Model download policy: the refusal of downloads without an expected
//! hash, the per-chunk progress and cancellation steps, and the final
//! SHA-256 check. Fetching and writing the bytes is the caller's work;
//! every decision about them is made here.

use std::sync::atomic::{AtomicBool, Ordering};
use std::sync::Arc;

use vstd::prelude::*;

use crate::digest::{hex_lower, sha256_of, Sha256Stream};
use crate::text::{str_to_chars, trim, trim_str};

verus! {

/// Progress of a running download, reported after every chunk.
#[derive(Debug, Clone, Copy, PartialEq, Eq, Structural)]
pub struct ProgressUpdate {
    pub bytes_received: u64,
    /// `None` when the server did not announce a length.
    pub bytes_total: Option<u64>,
}

/// Cooperative cancellation flag shared between the party that starts a
/// download and the party that may cancel it; the download checks it
/// before every chunk.
#[derive(Debug, Clone)]
pub struct CancelHandle {
    flag: Arc<AtomicBool>,
}

impl CancelHandle {
    /// A handle that has not been cancelled.
    pub fn new() -> (r: Self) {
        CancelHandle { flag: Arc::new(AtomicBool::new(false)) }
    }

    /// Requests cancellation; every clone of this handle observes it.
    pub fn cancel(&self) {
        self.flag.store(true, Ordering::Release);
    }

    /// Whether cancellation has been requested on this handle or a clone.
    pub fn is_cancelled(&self) -> (r: bool) {
        self.flag.load(Ordering::Acquire)
    }
}

/// Why a download did not produce a model file.
#[derive(Debug, Clone, PartialEq, Eq)]
pub enum DownloadError {
    /// The catalog holds no expected hash, so nothing could be verified.
    MissingSha,
    /// The user cancelled between two chunks.
    Cancelled,
    /// The bytes received do not hash to the expected value.
    ShaMismatch { expected: String, actual: String },
}

/// The text of a download error.
pub open spec fn error_message_spec(e: DownloadError) -> Seq<char> {
    match e {
        DownloadError::MissingSha => "missing SHA-256 in catalog — cannot verify download integrity"@,
        DownloadError::Cancelled => "download cancelled by user"@,
        DownloadError::ShaMismatch { expected, actual } => "SHA-256 mismatch: expected "@ + expected@
            + ", got "@ + actual@,
    }
}

impl DownloadError {
    /// The human-readable message for this error.
    pub fn message(&self) -> (r: String)
        ensures
            r@ == error_message_spec(*self),
    {
        match self {
            DownloadError::MissingSha => "missing SHA-256 in catalog — cannot verify download integrity".to_owned(),
            DownloadError::Cancelled => "download cancelled by user".to_owned(),
            DownloadError::ShaMismatch { expected, actual } => {
                let mut s = "SHA-256 mismatch: expected ".to_owned();
                s.append(expected.as_str());
                s.append(", got ");
                s.append(actual.as_str());
                s
            },
        }
    }
}

/// The name of the in-flight file for a download whose final path is
/// `dest`: the same path with `.part` appended.
pub fn with_part_suffix(dest: &str) -> (r: String)
    ensures
        r@ == dest@ + ".part"@,
{
    let mut s = dest.to_owned();
    s.append(".part");
    s
}

/// ASCII lower-casing of one character; every other character is kept.
pub open spec fn ascii_lower(c: char) -> char {
    if 'A' <= c <= 'Z' {
        ((c as u32) + 32) as char
    } else {
        c
    }
}

/// Equality up to ASCII case.
pub open spec fn eq_ignore_ascii_case_spec(a: Seq<char>, b: Seq<char>) -> bool {
    &&& a.len() == b.len()
    &&& forall|i: int| 0 <= i < a.len() ==> ascii_lower(#[trigger] a[i]) == ascii_lower(b[i])
}

fn ascii_lower_char(c: char) -> (r: char)
    ensures
        r == ascii_lower(c),
{
    if 'A' <= c && c <= 'Z' {
        let v: u8 = ((c as u32) + 32) as u8;
        v as char
    } else {
        c
    }
}

/// Compares two hex digests ignoring ASCII case: catalog values may be
/// upper- or lower-case, the hasher renders lower-case.
pub fn sha_eq(a: &str, b: &str) -> (r: bool)
    ensures
        r == eq_ignore_ascii_case_spec(a@, b@),
{
    let ac = str_to_chars(a);
    let bc = str_to_chars(b);
    if ac.len() != bc.len() {
        return false;
    }
    let mut i: usize = 0;
    while i < ac.len()
        invariant
            ac@ == a@,
            bc@ == b@,
            ac@.len() == bc@.len(),
            i <= ac@.len(),
            forall|k: int| 0 <= k < i ==> ascii_lower(#[trigger] a@[k]) == ascii_lower(b@[k]),
        decreases ac@.len() - i,
    {
        if ascii_lower_char(ac[i]) != ascii_lower_char(bc[i]) {
            return false;
        }
        i = i + 1;
    }
    true
}

/// Refuses a download whose expected hash is blank: there is no
/// trust-on-first-use, so a download that cannot be verified never starts.
pub fn check_expected_sha(expected_sha256_hex: &str) -> (r: Result<(), DownloadError>)
    ensures
        r is Err <==> trim(expected_sha256_hex@).len() == 0,
        r is Err ==> r == Err::<(), DownloadError>(DownloadError::MissingSha),
{
    let t = trim_str(expected_sha256_hex);
    if t.is_empty() {
        Err(DownloadError::MissingSha)
    } else {
        Ok(())
    }
}

/// A download in progress: the bytes accepted so far (hashed as they
/// arrive) and the length the server announced.
pub struct Download {
    hasher: Sha256Stream,
    bytes_received: u64,
    bytes_total: Option<u64>,
}

impl Download {
    /// The bytes accepted so far, in order.
    pub closed spec fn received(&self) -> Seq<u8> {
        self.hasher.input()
    }

    /// The length announced by the server.
    pub closed spec fn total(&self) -> Option<u64> {
        self.bytes_total
    }

    /// The running byte count agrees with the bytes accepted.
    pub closed spec fn wf(&self) -> bool {
        self.bytes_received == self.received().len()
    }

    /// The number of bytes accepted so far.
    pub fn bytes_received(&self) -> (r: u64)
        requires
            self.wf(),
        ensures
            r == self.received().len(),
    {
        self.bytes_received
    }

    /// A download that has accepted nothing yet.
    pub fn new(bytes_total: Option<u64>) -> (r: Self)
        ensures
            r.wf(),
            r.received() == Seq::<u8>::empty(),
            r.total() == bytes_total,
    {
        Download { hasher: Sha256Stream::new(), bytes_received: 0, bytes_total }
    }

    /// One chunk arrives. If cancellation was requested the chunk is
    /// refused and nothing changes; otherwise it is accepted and the new
    /// progress is returned.
    pub fn on_chunk(&mut self, chunk: &[u8], cancelled: bool) -> (r: Result<ProgressUpdate, DownloadError>)
        requires
            old(self).wf(),
            old(self).received().len() + chunk@.len() <= u64::MAX,
        ensures
            final(self).wf(),
            final(self).total() == old(self).total(),
            cancelled ==> r == Err::<ProgressUpdate, DownloadError>(DownloadError::Cancelled)
                && final(self).received() == old(self).received(),
            !cancelled ==> final(self).received() == old(self).received() + chunk@ && r
                == Ok::<ProgressUpdate, DownloadError>(
                ProgressUpdate {
                    bytes_received: (old(self).received().len() + chunk@.len()) as u64,
                    bytes_total: old(self).total(),
                },
            ),
    {
        if cancelled {
            return Err(DownloadError::Cancelled);
        }
        self.hasher.update(chunk);
        self.bytes_received = self.bytes_received + chunk.len() as u64;
        Ok(ProgressUpdate { bytes_received: self.bytes_received, bytes_total: self.bytes_total })
    }

    /// All chunks have arrived: accepts the download only if the bytes
    /// hash to the expected value (ignoring ASCII case).
    pub fn finish(self, expected_sha256_hex: &str) -> (r: Result<(), DownloadError>)
        requires
            self.wf(),
        ensures
            r is Ok <==> eq_ignore_ascii_case_spec(
                hex_lower(sha256_of(self.received())),
                expected_sha256_hex@,
            ),
            match r {
                Ok(_) => true,
                Err(DownloadError::ShaMismatch { expected, actual }) => expected@
                    == expected_sha256_hex@ && actual@ == hex_lower(sha256_of(self.received())),
                Err(_) => false,
            },
    {
        let actual = self.hasher.finish_hex();
        if sha_eq(actual.as_str(), expected_sha256_hex) {
            Ok(())
        } else {
            Err(DownloadError::ShaMismatch { expected: expected_sha256_hex.to_owned(), actual })
        }
    }
}

/// The bytes of `chunks`, one after another.
pub open spec fn concat_chunks(chunks: Seq<Seq<u8>>) -> Seq<u8>
    decreases chunks.len(),
{
    if chunks.len() == 0 {
        seq![]
    } else {
        concat_chunks(chunks.drop_last()) + chunks.last()
    }
}

/// The byte views of owned chunks.
pub open spec fn chunk_views(chunks: Seq<Vec<u8>>) -> Seq<Seq<u8>> {
    chunks.map_values(|c: Vec<u8>| c@)
}

proof fn lemma_concat_prefix_len(chunks: Seq<Seq<u8>>, i: int, j: int)
    requires
        0 <= i <= j <= chunks.len(),
    ensures
        concat_chunks(chunks.take(i)).len() <= concat_chunks(chunks.take(j)).len(),
    decreases j - i,
{
    if i < j {
        lemma_concat_prefix_len(chunks, i, j - 1);
        assert(chunks.take(j).drop_last() =~= chunks.take(j - 1));
    }
}

/// Runs the whole download policy over `chunks` in arrival order, where
/// `cancelled[i]` is the cancellation flag seen when chunk `i` arrived:
/// the blank-hash refusal, then every chunk, then the SHA-256 check.
/// Returns the outcome and the progress reported after each accepted
/// chunk. The outcome is `Ok` exactly when the expected hash is not blank,
/// no chunk saw the flag set, and the lower-case hex SHA-256 of all the
/// bytes equals the expected hash ignoring ASCII case; progress counts the
/// bytes of each prefix, so it never decreases and ends at the total.
pub fn download_chunks(
    expected_sha256_hex: &str,
    bytes_total: Option<u64>,
    chunks: &Vec<Vec<u8>>,
    cancelled: &Vec<bool>,
) -> (r: (Result<(), DownloadError>, Vec<ProgressUpdate>))
    requires
        chunks@.len() == cancelled@.len(),
        concat_chunks(chunk_views(chunks@)).len() <= u64::MAX,
    ensures
        ({
            let cv = chunk_views(chunks@);
            let all = concat_chunks(cv);
            let nonblank = trim(expected_sha256_hex@).len() > 0;
            let no_cancel = forall|i: int| 0 <= i < cancelled@.len() ==> !#[trigger] cancelled@[i];
            &&& r.0 is Ok <==> nonblank && no_cancel && eq_ignore_ascii_case_spec(
                hex_lower(sha256_of(all)),
                expected_sha256_hex@,
            )
            &&& !nonblank ==> r.0 == Err::<(), DownloadError>(DownloadError::MissingSha)
                && r.1@.len() == 0
            &&& nonblank && !no_cancel ==> r.0 == Err::<(), DownloadError>(DownloadError::Cancelled)
                && r.1@.len() < cancelled@.len() && cancelled@[r.1@.len() as int]
                && forall|i: int| 0 <= i < r.1@.len() ==> !#[trigger] cancelled@[i]
            &&& nonblank && no_cancel ==> r.1@.len() == chunks@.len()
            &&& nonblank && no_cancel && r.0 is Err ==> (r.0 matches Err(
                DownloadError::ShaMismatch { expected, actual },
            ) && expected@ == expected_sha256_hex@ && actual@ == hex_lower(sha256_of(all)))
            &&& forall|i: int|
                0 <= i < r.1@.len() ==> #[trigger] r.1@[i] == (ProgressUpdate {
                    bytes_received: concat_chunks(cv.take(i + 1)).len() as u64,
                    bytes_total,
                })
            &&& forall|i: int, j: int|
                0 <= i <= j < r.1@.len() ==> r.1@[i].bytes_received <= r.1@[j].bytes_received
        }),
{
    let ghost cv = chunk_views(chunks@);
    let mut progress: Vec<ProgressUpdate> = Vec::new();
    if let Err(e) = check_expected_sha(expected_sha256_hex) {
        return (Err(e), progress);
    }
    let mut d = Download::new(bytes_total);
    let mut i: usize = 0;
    proof {
        assert(cv.take(0) =~= Seq::<Seq<u8>>::empty());
    }
    while i < chunks.len()
        invariant
            cv == chunk_views(chunks@),
            trim(expected_sha256_hex@).len() > 0,
            chunks@.len() == cancelled@.len(),
            concat_chunks(cv).len() <= u64::MAX,
            i <= chunks@.len(),
            d.wf(),
            d.total() == bytes_total,
            d.received() == concat_chunks(cv.take(i as int)),
            progress@.len() == i,
            forall|k: int| 0 <= k < i ==> !#[trigger] cancelled@[k],
            forall|k: int|
                0 <= k < progress@.len() ==> #[trigger] progress@[k] == (ProgressUpdate {
                    bytes_received: concat_chunks(cv.take(k + 1)).len() as u64,
                    bytes_total,
                }),
        decreases chunks@.len() - i,
    {
        proof {
            lemma_concat_prefix_len(cv, i + 1, cv.len() as int);
            assert(cv.take(cv.len() as int) =~= cv);
            assert(cv.take(i + 1).drop_last() =~= cv.take(i as int));
            assert(cv[i as int] == chunks@[i as int]@);
        }
        match d.on_chunk(chunks[i].as_slice(), cancelled[i]) {
            Ok(update) => {
                progress.push(update);
            },
            Err(e) => {
                proof {
                    assert forall|a: int, b: int|
                        0 <= a <= b < progress@.len() implies progress@[a].bytes_received
                        <= progress@[b].bytes_received by {
                        lemma_concat_prefix_len(cv, a + 1, b + 1);
                        lemma_concat_prefix_len(cv, b + 1, cv.len() as int);
                    }
                }
                return (Err(e), progress);
            },
        }
        i = i + 1;
    }
    proof {
        assert(cv.take(cv.len() as int) =~= cv);
        assert forall|a: int, b: int|
            0 <= a <= b < progress@.len() implies progress@[a].bytes_received
            <= progress@[b].bytes_received by {
            lemma_concat_prefix_len(cv, a + 1, b + 1);
            lemma_concat_prefix_len(cv, b + 1, cv.len() as int);
        }
    }
    let r = d.finish(expected_sha256_hex);
    (r, progress)
}

} // verus!
