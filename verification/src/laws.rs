//! Stream-level laws: what holds of every framed ciphertext stream, proved
//! against the decode model of [`crate::engine`].

use vstd::prelude::*;

verus! {

use crate::codec::{be32_val, be64_of, lemma_be64_injective};
use crate::engine::{frame_parse, nonce_of, spec_decrypt_from, DecodeOutcome, FrameParse,
    MAX_CHUNK_LEN};

/// Nonce uniqueness: within one stream, two distinct chunk counters never
/// yield the same nonce, whatever the base nonce.
pub proof fn lemma_nonce_unique(base: Seq<u8>, i: u64, j: u64)
    requires
        i != j,
    ensures
        nonce_of(base, i as int) != nonce_of(base, j as int),
{
    if nonce_of(base, i as int) == nonce_of(base, j as int) {
        assert(be64_of(i) =~= be64_of(j)) by {
            assert forall|m: int| 0 <= m < 8 implies be64_of(i)[m] == be64_of(j)[m] by {
                assert(nonce_of(base, i as int)[base.len() + m] == be64_of(i)[m]);
                assert(nonce_of(base, j as int)[base.len() + m] == be64_of(j)[m]);
            }
        }
        lemma_be64_injective(i, j);
    }
}

/// Oversized-chunk rejection: a stream whose next chunk declares a length
/// above the maximum decodes to `BadLen`, whatever bytes follow the prefix.
pub proof fn lemma_oversized_chunk_rejected(key: Seq<u8>, base: Seq<u8>, ctr: int, c: Seq<u8>)
    requires
        c.len() >= 5,
        be32_val(c.subrange(0, 4)) > MAX_CHUNK_LEN as int,
    ensures
        spec_decrypt_from(key, base, ctr, c) == DecodeOutcome::BadLen,
{
}

/// Truncation detection: cutting any number of trailing bytes off a stream
/// that decodes to a plaintext leaves a stream that decodes to no plaintext
/// at all — never silently to a shorter one.
pub proof fn lemma_truncation_detected(key: Seq<u8>, base: Seq<u8>, ctr: int, c: Seq<u8>, m: int)
    requires
        spec_decrypt_from(key, base, ctr, c) matches DecodeOutcome::Plain(_),
        0 <= m < c.len(),
    ensures
        !(spec_decrypt_from(key, base, ctr, c.take(m)) matches DecodeOutcome::Plain(_)),
    decreases c.len(),
{
    let t = c.take(m);
    match frame_parse(c) {
        FrameParse::Short => {
            assert(false);
        },
        FrameParse::TooLong => {
            assert(false);
        },
        FrameParse::Frame(ct, fin, used) => {
            let l = used - 5;
            if m < 5 {
                assert(t.len() < 5);
            } else {
                assert(t.subrange(0, 4) =~= c.subrange(0, 4));
                if m < used {
                    assert(frame_parse(t) matches FrameParse::Short);
                } else {
                    assert(t[4] == c[4]);
                    assert(t.subrange(5, 5 + l) =~= c.subrange(5, 5 + l));
                    assert(frame_parse(t) == FrameParse::Frame(ct, fin, used));
                    if fin {
                        assert(used == c.len());
                        assert(false);
                    } else {
                        let rest = c.skip(used);
                        assert(spec_decrypt_from(key, base, ctr + 1, rest)
                            matches DecodeOutcome::Plain(_));
                        assert(t.skip(used) =~= rest.take(m - used));
                        lemma_truncation_detected(key, base, ctr + 1, rest, m - used);
                    }
                }
            }
        },
    }
}

/// Trailing-garbage detection: appending any nonempty bytes to a stream that
/// decodes to a plaintext gives a stream that decodes to `Trailing`.
pub proof fn lemma_trailing_garbage_detected(
    key: Seq<u8>,
    base: Seq<u8>,
    ctr: int,
    c: Seq<u8>,
    g: Seq<u8>,
)
    requires
        spec_decrypt_from(key, base, ctr, c) matches DecodeOutcome::Plain(_),
        g.len() > 0,
    ensures
        spec_decrypt_from(key, base, ctr, c + g) == DecodeOutcome::Trailing,
    decreases c.len(),
{
    let e = c + g;
    match frame_parse(c) {
        FrameParse::Short => {
            assert(false);
        },
        FrameParse::TooLong => {
            assert(false);
        },
        FrameParse::Frame(ct, fin, used) => {
            let l = used - 5;
            assert(e.subrange(0, 4) =~= c.subrange(0, 4));
            assert(e[4] == c[4]);
            assert(e.subrange(5, 5 + l) =~= c.subrange(5, 5 + l));
            assert(frame_parse(e) == FrameParse::Frame(ct, fin, used));
            if fin {
                assert(used == c.len());
                assert(e.len() > used);
            } else {
                assert(e.skip(used) =~= c.skip(used) + g);
                lemma_trailing_garbage_detected(key, base, ctr + 1, c.skip(used), g);
            }
        },
    }
}

} // verus!
