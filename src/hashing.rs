//! Content hashing: BLAKE3 digests rendered as lowercase hex, either over a
//! whole byte string or fed incrementally chunk by chunk.
use vstd::prelude::*;

verus! {

/// Bytes read from a file per step of a copy or a verification.
pub const CHUNK_SIZE: usize = 262144;

/// Length of a digest in hex characters.
pub const DIGEST_HEX_LEN: usize = 64;

/// `blake3::Hasher`, the incremental BLAKE3 hasher, held opaquely.
#[verifier::external_type_specification]
#[verifier::external_body]
pub struct ExHasher(blake3::Hasher);

/// The bytes a `blake3::Hasher` has been fed since it was created: the
/// hasher's contents, as far as its digest is concerned.
pub uninterp spec fn hasher_input(h: blake3::Hasher) -> Seq<u8>;

/// The lowercase hex rendering of the BLAKE3 hash of `data`. The one-shot
/// `blake3::hash` and a `Hasher` fed the same bytes agree on it, as the
/// crate documents for `Hasher::finalize`.
pub uninterp spec fn blake3_hex(data: Seq<u8>) -> Seq<char>;

/// Relies on `blake3::Hasher::new`: a fresh hasher has been fed nothing.
pub assume_specification[ blake3::Hasher::new ]() -> (r: blake3::Hasher)
    ensures
        hasher_input(r) == Seq::<u8>::empty(),
;

/// Relies on `blake3::Hasher::update`: the input is appended to what the
/// hasher has been fed. A hasher made by `new` has no input offset, so the
/// call does not panic.
#[verifier::external_body]
fn hasher_update(h: &mut blake3::Hasher, input: &[u8])
    ensures
        hasher_input(*final(h)) == hasher_input(*old(h)) + input@,
{
    h.update(input);
}

/// Relies on `blake3::Hasher::finalize` and `blake3::Hash::to_hex`: the hash
/// of everything fed equals `blake3::hash` of the concatenation, and its hex
/// form has two characters per byte of the 32-byte hash.
#[verifier::external_body]
fn hasher_finalize_hex(h: &blake3::Hasher) -> (r: String)
    ensures
        r@ == blake3_hex(hasher_input(*h)),
        r@.len() == 64,
{
    h.finalize().to_hex().to_string()
}

/// Relies on `blake3::hash` and `blake3::Hash::to_hex`: the one-shot hash of
/// `data`, as 64 lowercase hex characters.
#[verifier::external_body]
fn blake3_hash_hex(data: &[u8]) -> (r: String)
    ensures
        r@ == blake3_hex(data@),
        r@.len() == 64,
{
    blake3::hash(data).to_hex().to_string()
}

/// Incremental content hasher; its view is the bytes fed so far.
pub struct ContentHasher {
    inner: blake3::Hasher,
}

impl View for ContentHasher {
    type V = Seq<u8>;

    closed spec fn view(&self) -> Seq<u8> {
        hasher_input(self.inner)
    }
}

impl ContentHasher {
    /// A hasher that has been fed nothing.
    pub fn new() -> (r: ContentHasher)
        ensures
            r@ == Seq::<u8>::empty(),
    {
        ContentHasher { inner: blake3::Hasher::new() }
    }

    /// Feeds one chunk.
    pub fn update(&mut self, chunk: &[u8])
        ensures
            final(self)@ == old(self)@ + chunk@,
    {
        hasher_update(&mut self.inner, chunk);
    }

    /// The digest of everything fed so far, in hex.
    pub fn finalize_hex(&self) -> (r: String)
        ensures
            r@ == blake3_hex(self@),
            r@.len() == DIGEST_HEX_LEN,
    {
        hasher_finalize_hex(&self.inner)
    }
}

/// The digest of `data` computed in one pass, in hex.
pub fn hash_bytes(data: &[u8]) -> (r: String)
    ensures
        r@ == blake3_hex(data@),
        r@.len() == DIGEST_HEX_LEN,
{
    blake3_hash_hex(data)
}

/// The bytes a hasher holding `start` holds after being fed `chunks` in order.
pub open spec fn fed_after(start: Seq<u8>, chunks: Seq<Seq<u8>>) -> Seq<u8>
    decreases chunks.len(),
{
    if chunks.len() == 0 {
        start
    } else {
        fed_after(start + chunks[0], chunks.drop_first())
    }
}

proof fn lemma_fed_after_is_concat(start: Seq<u8>, chunks: Seq<Seq<u8>>)
    ensures
        fed_after(start, chunks) == start + chunks.flatten(),
    decreases chunks.len(),
{
    if chunks.len() == 0 {
        assert(start + chunks.flatten() =~= start);
    } else {
        lemma_fed_after_is_concat(start + chunks[0], chunks.drop_first());
        assert(chunks.flatten() == chunks[0] + chunks.drop_first().flatten());
        assert((start + chunks[0]) + chunks.drop_first().flatten() =~= start + (chunks[0]
            + chunks.drop_first().flatten()));
    }
}

/// Feeding a fresh hasher a file chunk by chunk, whatever the chunk
/// boundaries, yields the same digest as hashing the whole file in one pass.
pub proof fn lemma_chunked_digest_is_whole_digest(chunks: Seq<Seq<u8>>, whole: Seq<u8>)
    requires
        whole == chunks.flatten(),
    ensures
        blake3_hex(fed_after(Seq::<u8>::empty(), chunks)) == blake3_hex(whole),
{
    lemma_fed_after_is_concat(Seq::<u8>::empty(), chunks);
    assert(Seq::<u8>::empty() + chunks.flatten() =~= chunks.flatten());
}

/// Digest of `chunks` fed one after another into a fresh hasher.
pub fn hash_chunks(chunks: &Vec<Vec<u8>>) -> (r: String)
    ensures
        r@ == blake3_hex(fed_after(Seq::<u8>::empty(), chunks@.map_values(|c: Vec<u8>| c@))),
        r@.len() == DIGEST_HEX_LEN,
{
    let ghost all = chunks@.map_values(|c: Vec<u8>| c@);
    let mut h = ContentHasher::new();
    let mut i: usize = 0;
    assert(all.skip(0) =~= all);
    while i < chunks.len()
        invariant
            i <= chunks@.len(),
            all == chunks@.map_values(|c: Vec<u8>| c@),
            fed_after(h@, all.skip(i as int)) == fed_after(Seq::<u8>::empty(), all),
        decreases chunks@.len() - i,
    {
        proof {
            assert(all.skip(i as int).drop_first() =~= all.skip(i + 1));
            assert(all.skip(i as int)[0] == chunks@[i as int]@);
        }
        h.update(chunks[i].as_slice());
        i = i + 1;
    }
    assert(all.skip(i as int).len() == 0);
    h.finalize_hex()
}

} // verus!
