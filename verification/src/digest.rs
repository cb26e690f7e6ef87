//! SHA-256 of downloaded model files, streamed chunk by chunk, and its
//! lower-case hex rendering.

use vstd::prelude::*;

use sha2::Digest;

use crate::text::push_char;

verus! {

/// A running SHA-256 hasher, held in a private field; what the library
/// knows of it is the byte sequence it has been fed.
#[verifier::external_body]
pub struct Sha256Stream {
    hasher: sha2::Sha256,
}

/// The bytes fed to a hashing stream so far.
pub uninterp spec fn hashed_input(s: Sha256Stream) -> Seq<u8>;

/// SHA-256 digest of `data`.
pub uninterp spec fn sha256_of(data: Seq<u8>) -> Seq<u8>;

/// Calls `sha2::Sha256::new` (through `Digest::new`): a hasher that has
/// been fed nothing.
#[verifier::external_body]
fn stream_new() -> (s: Sha256Stream)
    ensures
        hashed_input(s) == Seq::<u8>::empty(),
{
    Sha256Stream { hasher: sha2::Sha256::new() }
}

/// Calls `Digest::update` on the hasher: feeds `chunk` after everything
/// fed before.
#[verifier::external_body]
fn stream_update(s: &mut Sha256Stream, chunk: &[u8])
    ensures
        hashed_input(*final(s)) == hashed_input(*old(s)) + chunk@,
{
    s.hasher.update(chunk)
}

/// Calls `Digest::finalize` on the hasher: the 32-byte SHA-256 digest of
/// everything fed.
#[verifier::external_body]
fn stream_finalize(s: Sha256Stream) -> (r: Vec<u8>)
    ensures
        r@ == sha256_of(hashed_input(s)),
        r@.len() == 32,
{
    s.hasher.finalize().to_vec()
}

/// Lower-case hex digit of a nibble.
pub open spec fn hex_digit(n: u8) -> char {
    if n < 10 {
        ((n + 48) as u8) as char
    } else {
        ((n - 10 + 97) as u8) as char
    }
}

/// Lower-case hex rendering of `data`, two digits per byte.
pub open spec fn hex_lower(data: Seq<u8>) -> Seq<char>
    decreases data.len(),
{
    if data.len() == 0 {
        seq![]
    } else {
        hex_lower(data.drop_last()) + seq![hex_digit(data.last() / 16), hex_digit(data.last() % 16)]
    }
}

fn hex_char(n: u8) -> (c: char)
    requires
        n < 16,
    ensures
        c == hex_digit(n),
{
    if n < 10 {
        (n + 48) as char
    } else {
        (n - 10 + 97) as char
    }
}

/// Renders `data` as lower-case hex.
pub fn to_hex_lower(data: &[u8]) -> (r: String)
    ensures
        r@ == hex_lower(data@),
{
    let mut out = String::new();
    let mut i: usize = 0;
    while i < data.len()
        invariant
            i <= data@.len(),
            out@ == hex_lower(data@.take(i as int)),
        decreases data@.len() - i,
    {
        let b = data[i];
        push_char(&mut out, hex_char(b / 16));
        push_char(&mut out, hex_char(b % 16));
        proof {
            assert(data@.take(i + 1).drop_last() =~= data@.take(i as int));
            assert(out@ =~= hex_lower(data@.take(i + 1)));
        }
        i = i + 1;
    }
    proof {
        assert(data@.take(data@.len() as int) =~= data@);
    }
    out
}

impl Sha256Stream {
    /// The bytes hashed so far.
    pub open spec fn input(&self) -> Seq<u8> {
        hashed_input(*self)
    }

    /// A stream that has hashed nothing.
    pub fn new() -> (r: Self)
        ensures
            r.input() == Seq::<u8>::empty(),
    {
        stream_new()
    }

    /// Hashes `chunk` after everything hashed before.
    pub fn update(&mut self, chunk: &[u8])
        ensures
            final(self).input() == old(self).input() + chunk@,
    {
        stream_update(self, chunk);
    }

    /// The lower-case hex SHA-256 of everything hashed.
    pub fn finish_hex(self) -> (r: String)
        ensures
            r@ == hex_lower(sha256_of(self.input())),
            r@.len() == 64,
    {
        let d = stream_finalize(self);
        let r = to_hex_lower(d.as_slice());
        proof { lemma_hex_len(d@); }
        r
    }
}

proof fn lemma_hex_len(data: Seq<u8>)
    ensures
        hex_lower(data).len() == 2 * data.len(),
    decreases data.len(),
{
    if data.len() > 0 {
        lemma_hex_len(data.drop_last());
    }
}

} // verus!
