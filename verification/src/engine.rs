//! The chunk framer and the encrypt/decrypt state machines.
//!
//! The wire contract is fixed here: a chunk is a 4-byte big-endian length
//! prefix (counting ciphertext and tag), one flag byte (1 on the final chunk,
//! 0 otherwise), then the ciphertext and tag. Chunk `i` of a stream is sealed
//! under nonce `base_nonce || be64(i)` with associated data `be64(i) || flag`,
//! so reordered, replayed or re-flagged chunks fail authentication.

use vstd::prelude::*;

verus! {

use crate::aead::{aead_open, aead_seal, open_of, seal_of};
use crate::codec::{be32_of, be32_val, be64_of, lemma_be32_roundtrip, push_be32, push_be64,
    read_be32};
use crate::errors::DecryptError;

/// Length of the authentication tag the AEAD appends to each chunk.
pub const TAG_LEN: usize = 16;

/// Length of a key.
pub const KEY_LEN: usize = 32;

/// Length of a per-stream base nonce.
pub const BASE_NONCE_LEN: usize = 4;

/// Length of a per-chunk nonce: the base nonce followed by the chunk counter.
pub const NONCE_LEN: usize = 12;

/// Largest plaintext carried by one chunk.
pub const MAX_PLAINTEXT_CHUNK: usize = 65536;

/// Largest ciphertext-and-tag length a chunk may declare: a full plaintext
/// chunk plus the tag.
pub const MAX_CHUNK_LEN: usize = 65552;

/// The flag byte framing a chunk: 1 on the final chunk, 0 otherwise.
pub open spec fn flag_byte(fin: bool) -> u8 {
    if fin {
        1u8
    } else {
        0u8
    }
}

/// The nonce of chunk `ctr`: the stream's base nonce followed by the counter,
/// big-endian. Distinct counters give distinct nonces.
pub open spec fn nonce_of(base: Seq<u8>, ctr: int) -> Seq<u8> {
    base + be64_of(ctr as u64)
}

/// The associated data of chunk `ctr`: the counter, big-endian, followed by
/// the final-chunk flag. Binding both into the seal rejects reordering and
/// a forged final marker.
pub open spec fn aad_of(ctr: int, fin: bool) -> Seq<u8> {
    be64_of(ctr as u64) + seq![flag_byte(fin)]
}

/// The ciphertext and tag of chunk `ctr` holding plaintext `pt`.
pub open spec fn chunk_seal(key: Seq<u8>, base: Seq<u8>, ctr: int, fin: bool, pt: Seq<u8>) -> Seq<
    u8,
> {
    seal_of(key, nonce_of(base, ctr), aad_of(ctr, fin), pt)
}

/// The frame around one chunk: length prefix, flag byte, ciphertext and tag.
pub open spec fn frame_of(ct: Seq<u8>, fin: bool) -> Seq<u8> {
    be32_of(ct.len() as u32) + seq![flag_byte(fin)] + ct
}

/// The whole ciphertext stream for plaintext `p`, with counters from `ctr`:
/// full non-final chunks while more than one chunk of plaintext remains, then
/// one final chunk carrying the rest (possibly empty).
pub open spec fn enc_from(key: Seq<u8>, base: Seq<u8>, ctr: int, p: Seq<u8>) -> Seq<u8>
    decreases p.len(),
{
    if p.len() <= MAX_PLAINTEXT_CHUNK as int {
        frame_of(chunk_seal(key, base, ctr, true, p), true)
    } else {
        frame_of(chunk_seal(key, base, ctr, false, p.take(MAX_PLAINTEXT_CHUNK as int)), false)
            + enc_from(key, base, ctr + 1, p.skip(MAX_PLAINTEXT_CHUNK as int))
    }
}

/// What decoding a framed stream yields: the whole plaintext, or the first
/// failure, one kind per error of the taxonomy.
pub enum DecodeOutcome {
    /// Every chunk authenticated and the final chunk ended the stream.
    Plain(Seq<u8>),
    /// A chunk declared a length above [`MAX_CHUNK_LEN`].
    BadLen,
    /// A chunk failed AEAD authentication.
    Auth,
    /// Bytes follow the final chunk.
    Trailing,
    /// The stream ended before a final chunk was complete, or no final chunk
    /// was ever seen.
    Truncated,
}

/// Prepends already-recovered plaintext to a decode outcome: errors pass
/// through unchanged.
pub open spec fn glue(prefix: Seq<u8>, d: DecodeOutcome) -> DecodeOutcome {
    match d {
        DecodeOutcome::Plain(rest) => DecodeOutcome::Plain(prefix + rest),
        _ => d,
    }
}

/// What parsing one frame from the head of `c` yields, independent of
/// cryptographic content.
pub enum FrameParse {
    /// Too few bytes for the header or for the declared length.
    Short,
    /// The declared length exceeds [`MAX_CHUNK_LEN`].
    TooLong,
    /// Ciphertext-and-tag, final flag, and the bytes consumed. The length is
    /// checked before the body is touched, so one frame never reads past what
    /// its prefix declares.
    Frame(Seq<u8>, bool, int),
}

/// Parses the frame at the head of `c`. Exactly the byte 1 marks a final
/// chunk; any other flag byte counts as non-final, and a forged final flag is
/// caught by authentication, since finality is bound into the associated
/// data.
pub open spec fn frame_parse(c: Seq<u8>) -> FrameParse {
    if c.len() < 5 {
        FrameParse::Short
    } else {
        let l = be32_val(c.subrange(0, 4));
        if l > MAX_CHUNK_LEN as int {
            FrameParse::TooLong
        } else if c.len() < 5 + l {
            FrameParse::Short
        } else {
            FrameParse::Frame(c.subrange(5, 5 + l), c[4] == 1u8, 5 + l)
        }
    }
}

/// Decoding a framed stream `c` with counters from `ctr`: parse a frame, open
/// it under the counter's nonce and associated data, and recurse until the
/// final chunk, which must end the stream exactly.
pub open spec fn spec_decrypt_from(key: Seq<u8>, base: Seq<u8>, ctr: int, c: Seq<u8>) -> DecodeOutcome
    decreases c.len(),
{
    match frame_parse(c) {
        FrameParse::Short => DecodeOutcome::Truncated,
        FrameParse::TooLong => DecodeOutcome::BadLen,
        FrameParse::Frame(ct, fin, used) => match open_of(
            key,
            nonce_of(base, ctr),
            aad_of(ctr, fin),
            ct,
        ) {
            Option::None => DecodeOutcome::Auth,
            Option::Some(pt) => if fin {
                if c.len() == used {
                    DecodeOutcome::Plain(pt)
                } else {
                    DecodeOutcome::Trailing
                }
            } else {
                glue(pt, spec_decrypt_from(key, base, ctr + 1, c.skip(used)))
            },
        },
    }
}

/// How the decryptor's result must mirror the decode outcome: the plaintext
/// on success, and the taxonomy's error kind on each failure.
pub open spec fn outcome_matches(r: Result<Vec<u8>, DecryptError>, d: DecodeOutcome) -> bool {
    match d {
        DecodeOutcome::Plain(p) => r matches Ok(v) && v@ == p,
        DecodeOutcome::BadLen => r matches Err(DecryptError::ChunkLen),
        DecodeOutcome::Auth => r matches Err(DecryptError::ChaPolyDecrypt),
        DecodeOutcome::Trailing => r matches Err(DecryptError::UnexpectedData),
        DecodeOutcome::Truncated => r matches Err(DecryptError::IORead(_)),
    }
}

/// Prepending nothing changes no outcome.
pub proof fn lemma_glue_empty(d: DecodeOutcome)
    ensures
        glue(Seq::<u8>::empty(), d) == d,
{
    match d {
        DecodeOutcome::Plain(rest) => {
            assert(Seq::<u8>::empty() + rest =~= rest);
        },
        _ => {},
    }
}

/// Prepending twice is prepending the concatenation.
pub proof fn lemma_glue_assoc(a: Seq<u8>, b: Seq<u8>, d: DecodeOutcome)
    ensures
        glue(a, glue(b, d)) == glue(a + b, d),
{
    match d {
        DecodeOutcome::Plain(rest) => {
            assert(a + (b + rest) =~= (a + b) + rest);
        },
        _ => {},
    }
}

/// How one frame at the head of a stream decodes: the frame's own fields
/// direct the parse, and the rest of the stream decodes under the next
/// counter.
pub proof fn lemma_parse_frame(
    key: Seq<u8>,
    base: Seq<u8>,
    ctr: int,
    ct: Seq<u8>,
    fin: bool,
    tail: Seq<u8>,
)
    requires
        ct.len() <= MAX_CHUNK_LEN as int,
    ensures
        spec_decrypt_from(key, base, ctr, frame_of(ct, fin) + tail) == (match open_of(
            key,
            nonce_of(base, ctr),
            aad_of(ctr, fin),
            ct,
        ) {
            Option::None => DecodeOutcome::Auth,
            Option::Some(pt) => if fin {
                if tail.len() == 0 {
                    DecodeOutcome::Plain(pt)
                } else {
                    DecodeOutcome::Trailing
                }
            } else {
                glue(pt, spec_decrypt_from(key, base, ctr + 1, tail))
            },
        }),
{
    let c = frame_of(ct, fin) + tail;
    lemma_be32_roundtrip(ct.len() as u32);
    assert(c.subrange(0, 4) =~= be32_of(ct.len() as u32));
    assert(be32_val(c.subrange(0, 4)) == ct.len());
    assert(c[4] == flag_byte(fin));
    assert(c.subrange(5, 5 + ct.len() as int) =~= ct);
    assert(c.skip(5 + ct.len() as int) =~= tail);
    assert((c[4] == 1u8) == fin);
    assert(frame_parse(c) == FrameParse::Frame(ct, fin, 5 + ct.len() as int));
}

/// Copies a byte vector.
fn clone_bytes(v: &Vec<u8>) -> (r: Vec<u8>)
    ensures
        r@ == v@,
{
    vstd::slice::slice_to_vec(v.as_slice())
}

/// The nonce bytes of chunk `ctr`.
fn nonce_bytes(base: &Vec<u8>, ctr: u64) -> (r: Vec<u8>)
    requires
        base@.len() == BASE_NONCE_LEN,
    ensures
        r@ == nonce_of(base@, ctr as int),
        r@.len() == NONCE_LEN,
{
    let mut r: Vec<u8> = Vec::new();
    r.extend_from_slice(base.as_slice());
    push_be64(&mut r, ctr);
    proof {
        assert(r@ =~= nonce_of(base@, ctr as int));
    }
    r
}

/// The associated data of chunk `ctr`.
fn aad_bytes(ctr: u64, fin: bool) -> (r: Vec<u8>)
    ensures
        r@ == aad_of(ctr as int, fin),
{
    let mut r: Vec<u8> = Vec::new();
    push_be64(&mut r, ctr);
    r.push(if fin { 1 } else { 0 });
    proof {
        assert(r@ =~= aad_of(ctr as int, fin));
    }
    r
}

/// Seals one chunk and frames it.
fn seal_chunk(key: &Vec<u8>, base: &Vec<u8>, ctr: u64, fin: bool, pt: &[u8]) -> (r: Vec<u8>)
    requires
        key@.len() == KEY_LEN,
        base@.len() == BASE_NONCE_LEN,
        pt@.len() <= MAX_PLAINTEXT_CHUNK,
    ensures
        r@ == frame_of(chunk_seal(key@, base@, ctr as int, fin, pt@), fin),
        chunk_seal(key@, base@, ctr as int, fin, pt@).len() == pt@.len() + TAG_LEN,
        open_of(
            key@,
            nonce_of(base@, ctr as int),
            aad_of(ctr as int, fin),
            chunk_seal(key@, base@, ctr as int, fin, pt@),
        ) == Some(pt@),
{
    let nonce = nonce_bytes(base, ctr);
    let aad = aad_bytes(ctr, fin);
    let ct = aead_seal(key.as_slice(), nonce.as_slice(), aad.as_slice(), pt);
    let mut r: Vec<u8> = Vec::new();
    push_be32(&mut r, ct.len() as u32);
    r.push(if fin { 1 } else { 0 });
    r.extend_from_slice(ct.as_slice());
    proof {
        assert(r@ =~= frame_of(chunk_seal(key@, base@, ctr as int, fin, pt@), fin));
    }
    r
}

/// The encrypt-side stream state: key, base nonce, the counter of the next
/// chunk, and whether the final chunk has been written. The state is owned by
/// one stream; the counter only ever moves forward, so no nonce is reused,
/// even if a chunk's write is retried after a fault.
pub struct Encryptor {
    key: Vec<u8>,
    base_nonce: Vec<u8>,
    counter: u64,
    finished: bool,
}

impl Encryptor {
    /// The key this stream seals under.
    pub closed spec fn key_view(&self) -> Seq<u8> {
        self.key@
    }

    /// The stream's base nonce.
    pub closed spec fn base_nonce_view(&self) -> Seq<u8> {
        self.base_nonce@
    }

    /// The counter of the next chunk.
    pub closed spec fn counter_view(&self) -> u64 {
        self.counter
    }

    /// Whether the final chunk has been written.
    pub closed spec fn finished_view(&self) -> bool {
        self.finished
    }

    /// Well-formedness: the key and base nonce have their fixed lengths.
    pub open spec fn wf(&self) -> bool {
        &&& self.key_view().len() == KEY_LEN
        &&& self.base_nonce_view().len() == BASE_NONCE_LEN
    }

    /// Starts a stream at counter zero.
    pub fn new(key: Vec<u8>, base_nonce: Vec<u8>) -> (r: Self)
        requires
            key@.len() == KEY_LEN,
            base_nonce@.len() == BASE_NONCE_LEN,
        ensures
            r.wf(),
            r.key_view() == key@,
            r.base_nonce_view() == base_nonce@,
            r.counter_view() == 0,
            !r.finished_view(),
    {
        Encryptor { key, base_nonce, counter: 0, finished: false }
    }

    /// Whether the final chunk has been written.
    pub fn is_finished(&self) -> (r: bool)
        ensures
            r == self.finished_view(),
    {
        self.finished
    }

    /// The counter of the next chunk.
    pub fn counter(&self) -> (r: u64)
        ensures
            r == self.counter_view(),
    {
        self.counter
    }

    /// Seals one non-final chunk and returns its frame. The counter is
    /// committed before the frame is handed out: even if the caller fails to
    /// write it and retries, this nonce is never used again.
    pub fn write_chunk(&mut self, pt: &[u8]) -> (r: Vec<u8>)
        requires
            old(self).wf(),
            !old(self).finished_view(),
            old(self).counter_view() < u64::MAX,
            pt@.len() <= MAX_PLAINTEXT_CHUNK,
        ensures
            final(self).wf(),
            final(self).key_view() == old(self).key_view(),
            final(self).base_nonce_view() == old(self).base_nonce_view(),
            final(self).counter_view() == old(self).counter_view() + 1,
            !final(self).finished_view(),
            r@ == frame_of(
                chunk_seal(
                    old(self).key_view(),
                    old(self).base_nonce_view(),
                    old(self).counter_view() as int,
                    false,
                    pt@,
                ),
                false,
            ),
            chunk_seal(
                old(self).key_view(),
                old(self).base_nonce_view(),
                old(self).counter_view() as int,
                false,
                pt@,
            ).len() == pt@.len() + TAG_LEN,
            open_of(
                old(self).key_view(),
                nonce_of(old(self).base_nonce_view(), old(self).counter_view() as int),
                aad_of(old(self).counter_view() as int, false),
                chunk_seal(
                    old(self).key_view(),
                    old(self).base_nonce_view(),
                    old(self).counter_view() as int,
                    false,
                    pt@,
                ),
            ) == Some(pt@),
    {
        let r = seal_chunk(&self.key, &self.base_nonce, self.counter, false, pt);
        self.counter = self.counter + 1;
        r
    }

    /// Seals the final chunk, returns its frame, and moves the stream to
    /// `Finished`: no further chunk can be written.
    pub fn finish(&mut self, pt: &[u8]) -> (r: Vec<u8>)
        requires
            old(self).wf(),
            !old(self).finished_view(),
            old(self).counter_view() < u64::MAX,
            pt@.len() <= MAX_PLAINTEXT_CHUNK,
        ensures
            final(self).wf(),
            final(self).key_view() == old(self).key_view(),
            final(self).base_nonce_view() == old(self).base_nonce_view(),
            final(self).counter_view() == old(self).counter_view() + 1,
            final(self).finished_view(),
            r@ == frame_of(
                chunk_seal(
                    old(self).key_view(),
                    old(self).base_nonce_view(),
                    old(self).counter_view() as int,
                    true,
                    pt@,
                ),
                true,
            ),
            chunk_seal(
                old(self).key_view(),
                old(self).base_nonce_view(),
                old(self).counter_view() as int,
                true,
                pt@,
            ).len() == pt@.len() + TAG_LEN,
            open_of(
                old(self).key_view(),
                nonce_of(old(self).base_nonce_view(), old(self).counter_view() as int),
                aad_of(old(self).counter_view() as int, true),
                chunk_seal(
                    old(self).key_view(),
                    old(self).base_nonce_view(),
                    old(self).counter_view() as int,
                    true,
                    pt@,
                ),
            ) == Some(pt@),
    {
        let r = seal_chunk(&self.key, &self.base_nonce, self.counter, true, pt);
        self.counter = self.counter + 1;
        self.finished = true;
        r
    }
}

/// Encrypts a whole plaintext into a framed ciphertext stream: full non-final
/// chunks, then one final chunk carrying the rest, which is the whole
/// plaintext when it fits one chunk and is empty only for an empty plaintext.
/// The second clause is the round trip: decoding the produced stream yields
/// the plaintext back.
pub fn encrypt(key: &Vec<u8>, base_nonce: &Vec<u8>, plaintext: &Vec<u8>) -> (r: Vec<u8>)
    requires
        key@.len() == KEY_LEN,
        base_nonce@.len() == BASE_NONCE_LEN,
    ensures
        r@ == enc_from(key@, base_nonce@, 0, plaintext@),
        spec_decrypt_from(key@, base_nonce@, 0, r@) == DecodeOutcome::Plain(plaintext@),
{
    let ghost k = key@;
    let ghost b = base_nonce@;
    let ghost p = plaintext@;
    let mut enc = Encryptor::new(clone_bytes(key), clone_bytes(base_nonce));
    let mut out: Vec<u8> = Vec::new();
    let mut pos: usize = 0;
    let n = plaintext.len();
    proof {
        assert(p.skip(0) =~= p);
        assert(out@ + enc_from(k, b, 0, p) =~= enc_from(k, b, 0, p));
    }
    assert forall|t: Seq<u8>|
        spec_decrypt_from(k, b, 0, out@ + t) == glue(
            p.take(pos as int),
            #[trigger] spec_decrypt_from(k, b, enc.counter_view() as int, t),
        ) by {
        assert(out@ + t =~= t);
        assert(p.take(pos as int) =~= Seq::<u8>::empty());
        lemma_glue_empty(spec_decrypt_from(k, b, 0, t));
    }
    while n - pos > MAX_PLAINTEXT_CHUNK
        invariant
            enc.wf(),
            enc.key_view() == k,
            enc.base_nonce_view() == b,
            !enc.finished_view(),
            k.len() == KEY_LEN,
            b.len() == BASE_NONCE_LEN,
            n == p.len(),
            pos <= n,
            n == plaintext@.len(),
            p == plaintext@,
            pos as int == enc.counter_view() as int * (MAX_PLAINTEXT_CHUNK as int),
            enc_from(k, b, 0, p) == out@ + enc_from(
                k,
                b,
                enc.counter_view() as int,
                p.skip(pos as int),
            ),
            forall|t: Seq<u8>|
                spec_decrypt_from(k, b, 0, out@ + t) == glue(
                    p.take(pos as int),
                    #[trigger] spec_decrypt_from(k, b, enc.counter_view() as int, t),
                ),
        decreases n - pos,
    {
        let ghost prev_out = out@;
        let ghost prev_pos = pos as int;
        let ghost prev_ctr = enc.counter_view() as int;
        proof {
            assert(enc.counter_view() < u64::MAX) by {
                assert(prev_ctr * (MAX_PLAINTEXT_CHUNK as int) <= usize::MAX as int);
                assert(usize::MAX as int <= u64::MAX as int);
            }
        }
        let chunk = vstd::slice::slice_subrange(plaintext.as_slice(), pos, pos
            + MAX_PLAINTEXT_CHUNK);
        let mut frame = enc.write_chunk(chunk);
        proof {
            let cs = chunk_seal(k, b, prev_ctr, false, chunk@);
            assert(chunk@ =~= p.skip(prev_pos).take(MAX_PLAINTEXT_CHUNK as int));
            assert(p.skip(prev_pos).skip(MAX_PLAINTEXT_CHUNK as int) =~= p.skip(
                prev_pos + MAX_PLAINTEXT_CHUNK as int,
            ));
            assert(enc_from(k, b, prev_ctr, p.skip(prev_pos)) == frame@ + enc_from(
                k,
                b,
                prev_ctr + 1,
                p.skip(prev_pos + MAX_PLAINTEXT_CHUNK as int),
            ));
            assert(prev_out + (frame@ + enc_from(
                k,
                b,
                prev_ctr + 1,
                p.skip(prev_pos + MAX_PLAINTEXT_CHUNK as int),
            )) =~= (prev_out + frame@) + enc_from(
                k,
                b,
                prev_ctr + 1,
                p.skip(prev_pos + MAX_PLAINTEXT_CHUNK as int),
            ));
            assert(p.take(prev_pos) + chunk@ =~= p.take(prev_pos + MAX_PLAINTEXT_CHUNK as int));
            assert forall|t: Seq<u8>|
                spec_decrypt_from(k, b, 0, (prev_out + frame@) + t) == glue(
                    p.take(prev_pos + MAX_PLAINTEXT_CHUNK as int),
                    #[trigger] spec_decrypt_from(k, b, prev_ctr + 1, t),
                ) by {
                assert((prev_out + frame@) + t =~= prev_out + (frame@ + t));
                assert(spec_decrypt_from(k, b, 0, prev_out + (frame@ + t)) == glue(
                    p.take(prev_pos),
                    spec_decrypt_from(k, b, prev_ctr, frame@ + t),
                ));
                lemma_parse_frame(k, b, prev_ctr, cs, false, t);
                lemma_glue_assoc(p.take(prev_pos), chunk@, spec_decrypt_from(k, b, prev_ctr + 1, t));
            }
        }
        out.append(&mut frame);
        pos = pos + MAX_PLAINTEXT_CHUNK;
    }
    let ghost prev_out = out@;
    let ghost prev_pos = pos as int;
    let ghost prev_ctr = enc.counter_view() as int;
    proof {
        assert(enc.counter_view() < u64::MAX) by {
            assert(prev_ctr * (MAX_PLAINTEXT_CHUNK as int) <= usize::MAX as int);
            assert(usize::MAX as int <= u64::MAX as int);
        }
    }
    let chunk = vstd::slice::slice_subrange(plaintext.as_slice(), pos, n);
    let mut frame = enc.finish(chunk);
    proof {
        let cs = chunk_seal(k, b, prev_ctr, true, chunk@);
        assert(chunk@ =~= p.skip(prev_pos));
        assert(enc_from(k, b, prev_ctr, p.skip(prev_pos)) == frame_of(cs, true));
        assert(frame@ + Seq::<u8>::empty() =~= frame@);
        lemma_parse_frame(k, b, prev_ctr, cs, true, Seq::<u8>::empty());
        assert(spec_decrypt_from(k, b, prev_ctr, frame@) == DecodeOutcome::Plain(chunk@));
        assert(spec_decrypt_from(k, b, 0, prev_out + frame@) == glue(
            p.take(prev_pos),
            spec_decrypt_from(k, b, prev_ctr, frame@),
        ));
        assert(p.take(prev_pos) + p.skip(prev_pos) =~= p);
    }
    out.append(&mut frame);
    out
}

/// The result of parsing one frame out of a buffer.
pub enum FrameDecode {
    /// Ciphertext-and-tag, final flag, and the position just past the frame.
    Frame(Vec<u8>, bool, usize),
    /// Too few bytes for the header or for the declared length.
    Short,
    /// The declared length exceeds [`MAX_CHUNK_LEN`].
    TooLong,
}

/// Parses the frame at `pos`. The length prefix is checked against
/// [`MAX_CHUNK_LEN`] before any byte past the header is touched, and no byte
/// beyond the declared length is read.
pub fn decode_frame(src: &Vec<u8>, pos: usize) -> (r: FrameDecode)
    requires
        pos <= src@.len(),
    ensures
        (match r {
            FrameDecode::Frame(ct, fin, next) => {
                &&& frame_parse(src@.skip(pos as int)) == FrameParse::Frame(
                    ct@,
                    fin,
                    next - pos,
                )
                &&& pos + 5 <= next <= src@.len()
            },
            FrameDecode::Short => frame_parse(src@.skip(pos as int)) is Short,
            FrameDecode::TooLong => frame_parse(src@.skip(pos as int)) is TooLong,
        }),
{
    let ghost s = src@.skip(pos as int);
    let n = src.len();
    if n - pos < 5 {
        return FrameDecode::Short;
    }
    let l32 = read_be32(src, pos);
    proof {
        assert(s.subrange(0, 4) =~= src@.subrange(pos as int, pos as int + 4));
    }
    if l32 > MAX_CHUNK_LEN as u32 {
        return FrameDecode::TooLong;
    }
    let l = l32 as usize;
    if n - pos - 5 < l {
        return FrameDecode::Short;
    }
    let fin = src[pos + 4] == 1;
    let ct = vstd::slice::slice_to_vec(
        vstd::slice::slice_subrange(src.as_slice(), pos + 5, pos + 5 + l),
    );
    proof {
        assert(s[4] == src@[pos as int + 4]);
        assert(s.subrange(5, 5 + l as int) =~= src@.subrange(
            pos as int + 5,
            pos as int + 5 + l as int,
        ));
    }
    FrameDecode::Frame(ct, fin, pos + 5 + l)
}

/// The decrypt-side stream state: key, base nonce, the counter of the next
/// expected chunk, and whether the final chunk has been consumed. Decryption
/// is strictly sequential: the counter alone decides which nonce and
/// associated data a chunk is opened under, so out-of-order chunks fail
/// authentication.
pub struct Decryptor {
    key: Vec<u8>,
    base_nonce: Vec<u8>,
    counter: u64,
    finished: bool,
}

impl Decryptor {
    /// The key this stream opens under.
    pub closed spec fn key_view(&self) -> Seq<u8> {
        self.key@
    }

    /// The stream's base nonce.
    pub closed spec fn base_nonce_view(&self) -> Seq<u8> {
        self.base_nonce@
    }

    /// The counter of the next expected chunk.
    pub closed spec fn counter_view(&self) -> u64 {
        self.counter
    }

    /// Whether the final chunk has been consumed.
    pub closed spec fn finished_view(&self) -> bool {
        self.finished
    }

    /// Well-formedness: the key and base nonce have their fixed lengths.
    pub open spec fn wf(&self) -> bool {
        &&& self.key_view().len() == KEY_LEN
        &&& self.base_nonce_view().len() == BASE_NONCE_LEN
    }

    /// Starts a stream at counter zero.
    pub fn new(key: Vec<u8>, base_nonce: Vec<u8>) -> (r: Self)
        requires
            key@.len() == KEY_LEN,
            base_nonce@.len() == BASE_NONCE_LEN,
        ensures
            r.wf(),
            r.key_view() == key@,
            r.base_nonce_view() == base_nonce@,
            r.counter_view() == 0,
            !r.finished_view(),
    {
        Decryptor { key, base_nonce, counter: 0, finished: false }
    }

    /// Whether the final chunk has been consumed.
    pub fn is_finished(&self) -> (r: bool)
        ensures
            r == self.finished_view(),
    {
        self.finished
    }

    /// The counter of the next expected chunk.
    pub fn counter(&self) -> (r: u64)
        ensures
            r == self.counter_view(),
    {
        self.counter
    }

    /// Parses and opens the chunk at `pos`. On success it returns the chunk's
    /// plaintext and the position just past the frame, and moves to
    /// `Finished` exactly on the final chunk; the contract ties the result to
    /// the decode of the stream's remainder. Each failure carries the
    /// taxonomy's kind: an oversized length prefix `ChunkLen`, a source
    /// exhausted mid-chunk `IORead`, a chunk that fails authentication
    /// `ChaPolyDecrypt`.
    pub fn read_chunk(&mut self, src: &Vec<u8>, pos: usize) -> (r: Result<
        (Vec<u8>, usize),
        DecryptError,
    >)
        requires
            old(self).wf(),
            !old(self).finished_view(),
            old(self).counter_view() < u64::MAX,
            pos <= src@.len(),
        ensures
            final(self).wf(),
            final(self).key_view() == old(self).key_view(),
            final(self).base_nonce_view() == old(self).base_nonce_view(),
            (match r {
                Ok(ret) => {
                    &&& final(self).counter_view() == old(self).counter_view() + 1
                    &&& pos + 5 <= ret.1 <= src@.len()
                    &&& (final(self).finished_view() ==> spec_decrypt_from(
                        old(self).key_view(),
                        old(self).base_nonce_view(),
                        old(self).counter_view() as int,
                        src@.skip(pos as int),
                    ) == (if ret.1 == src@.len() {
                        DecodeOutcome::Plain(ret.0@)
                    } else {
                        DecodeOutcome::Trailing
                    }))
                    &&& (!final(self).finished_view() ==> spec_decrypt_from(
                        old(self).key_view(),
                        old(self).base_nonce_view(),
                        old(self).counter_view() as int,
                        src@.skip(pos as int),
                    ) == glue(
                        ret.0@,
                        spec_decrypt_from(
                            old(self).key_view(),
                            old(self).base_nonce_view(),
                            old(self).counter_view() as int + 1,
                            src@.skip(ret.1 as int),
                        ),
                    ))
                },
                Err(e) => {
                    &&& final(self).counter_view() == old(self).counter_view()
                    &&& final(self).finished_view() == old(self).finished_view()
                    &&& (match spec_decrypt_from(
                        old(self).key_view(),
                        old(self).base_nonce_view(),
                        old(self).counter_view() as int,
                        src@.skip(pos as int),
                    ) {
                        DecodeOutcome::BadLen => e matches DecryptError::ChunkLen,
                        DecodeOutcome::Auth => e matches DecryptError::ChaPolyDecrypt,
                        DecodeOutcome::Truncated => e matches DecryptError::IORead(_),
                        _ => false,
                    })
                },
            }),
    {
        let ghost s = src@.skip(pos as int);
        let ghost ctr0 = self.counter as int;
        match decode_frame(src, pos) {
            FrameDecode::Short => Err(
                DecryptError::IORead(crate::errors::unexpected_eof_error()),
            ),
            FrameDecode::TooLong => Err(DecryptError::ChunkLen),
            FrameDecode::Frame(ct, fin, next) => {
                let nonce = nonce_bytes(&self.base_nonce, self.counter);
                let aad = aad_bytes(self.counter, fin);
                match aead_open(
                    self.key.as_slice(),
                    nonce.as_slice(),
                    aad.as_slice(),
                    ct.as_slice(),
                ) {
                    Err(e) => Err(DecryptError::from(e)),
                    Ok(pt) => {
                        self.counter = self.counter + 1;
                        if fin {
                            self.finished = true;
                            proof {
                                assert((s.len() == next - pos) == (next == src@.len()));
                            }
                        } else {
                            proof {
                                assert(s.skip(next - pos) =~= src@.skip(next as int));
                            }
                        }
                        Ok((pt, next))
                    },
                }
            },
        }
    }
}

/// Decrypts a whole framed ciphertext stream, validating completeness: every
/// chunk must authenticate in order, exactly one final chunk must close the
/// stream, and nothing may follow it. The contract mirrors the stream's
/// decode exactly: the plaintext when and only when the stream is valid, and
/// otherwise the error kind of the first failure, so a wrong key or tampering
/// (`ChaPolyDecrypt`), an oversized length prefix (`ChunkLen`), truncation
/// (`IORead`), and trailing garbage (`UnexpectedData`) stay distinguishable.
pub fn decrypt(key: &Vec<u8>, base_nonce: &Vec<u8>, ciphertext: &Vec<u8>) -> (r: Result<
    Vec<u8>,
    DecryptError,
>)
    requires
        key@.len() == KEY_LEN,
        base_nonce@.len() == BASE_NONCE_LEN,
    ensures
        outcome_matches(r, spec_decrypt_from(key@, base_nonce@, 0, ciphertext@)),
{
    let ghost k = key@;
    let ghost b = base_nonce@;
    let ghost c = ciphertext@;
    let mut dec = Decryptor::new(clone_bytes(key), clone_bytes(base_nonce));
    let mut out: Vec<u8> = Vec::new();
    let mut pos: usize = 0;
    let n = ciphertext.len();
    proof {
        assert(c.skip(0) =~= c);
        lemma_glue_empty(spec_decrypt_from(k, b, 0, c));
    }
    loop
        invariant
            dec.wf(),
            dec.key_view() == k,
            dec.base_nonce_view() == b,
            !dec.finished_view(),
            k.len() == KEY_LEN,
            b.len() == BASE_NONCE_LEN,
            pos <= n,
            n == c.len(),
            k == key@,
            b == base_nonce@,
            c == ciphertext@,
            5 * (dec.counter_view() as int) <= pos as int,
            spec_decrypt_from(k, b, 0, c) == glue(
                out@,
                spec_decrypt_from(k, b, dec.counter_view() as int, c.skip(pos as int)),
            ),
        decreases n - pos,
    {
        let ghost prev_ctr = dec.counter_view() as int;
        let ghost prev_out = out@;
        proof {
            assert(dec.counter_view() < u64::MAX) by {
                assert(5 * prev_ctr <= usize::MAX as int);
                assert(usize::MAX as int <= u64::MAX as int);
            }
        }
        match dec.read_chunk(ciphertext, pos) {
            Err(e) => {
                return Err(e);
            },
            Ok((mut pt, next)) => {
                if dec.is_finished() {
                    if next != n {
                        return Err(DecryptError::UnexpectedData);
                    }
                    out.append(&mut pt);
                    return Ok(out);
                }
                proof {
                    lemma_glue_assoc(
                        prev_out,
                        pt@,
                        spec_decrypt_from(k, b, prev_ctr + 1, c.skip(next as int)),
                    );
                }
                out.append(&mut pt);
                pos = next;
            },
        }
    }
}

} // verus!
