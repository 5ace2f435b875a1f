use vstd::prelude::*;

verus! {

/// The byte that ends every frame.
pub const NEWLINE: u8 = 10;

/// `s` holds no frame terminator.
pub open spec fn newline_free(s: Seq<u8>) -> bool {
    forall|i: int| 0 <= i < s.len() ==> s[i] != NEWLINE
}

/// A payload on the wire: its bytes, then the terminator.
pub open spec fn encode_frame(payload: Seq<u8>) -> Seq<u8> {
    payload.push(NEWLINE)
}

/// `k` is the position of the first terminator in `b`.
pub open spec fn first_newline_at(b: Seq<u8>, k: int) -> bool {
    0 <= k < b.len() && b[k] == NEWLINE && newline_free(b.subrange(0, k))
}

/// The first complete frame of `b` and what follows it, if `b` holds one.
pub open spec fn split_first(b: Seq<u8>) -> Option<(Seq<u8>, Seq<u8>)> {
    if exists|k: int| first_newline_at(b, k) {
        let k = choose|k: int| first_newline_at(b, k);
        Some((b.subrange(0, k), b.subrange(k + 1, b.len() as int)))
    } else {
        None
    }
}

/// The frames of `fs`, one after another, as written to the stream.
pub open spec fn join_frames(fs: Seq<Seq<u8>>) -> Seq<u8>
    decreases fs.len(),
{
    if fs.len() == 0 {
        Seq::empty()
    } else {
        encode_frame(fs[0]) + join_frames(fs.drop_first())
    }
}

proof fn lemma_first_newline_unique(b: Seq<u8>, k1: int, k2: int)
    requires
        first_newline_at(b, k1),
        first_newline_at(b, k2),
    ensures
        k1 == k2,
{
    if k1 < k2 {
        assert(b.subrange(0, k2)[k1] == b[k1]);
    } else if k2 < k1 {
        assert(b.subrange(0, k1)[k2] == b[k2]);
    }
}

/// A framed payload followed by anything reads back as that payload, and
/// the rest of the stream is left exactly as it was.
pub proof fn lemma_frame_round_trip(payload: Seq<u8>, rest: Seq<u8>)
    requires
        newline_free(payload),
    ensures
        split_first(encode_frame(payload) + rest) == Some((payload, rest)),
{
    let b = encode_frame(payload) + rest;
    let n = payload.len() as int;
    assert(b.subrange(0, n) =~= payload);
    assert(first_newline_at(b, n));
    let k = choose|k: int| first_newline_at(b, k);
    lemma_first_newline_unique(b, k, n);
    assert(b.subrange(n + 1, b.len() as int) =~= rest);
}

/// Responses written one whole frame at a time never interleave: a reader
/// of the stream gets back each payload, in the order written.
pub proof fn lemma_frames_read_back(fs: Seq<Seq<u8>>)
    requires
        forall|i: int| 0 <= i < fs.len() ==> newline_free(#[trigger] fs[i]),
    ensures
        fs.len() == 0 ==> split_first(join_frames(fs)) is None,
        fs.len() > 0 ==> split_first(join_frames(fs)) == Some((fs[0], join_frames(fs.drop_first()))),
{
    if fs.len() > 0 {
        lemma_frame_round_trip(fs[0], join_frames(fs.drop_first()));
    }
}

/// Frames a payload for the stream; a payload that holds a terminator
/// cannot be framed and is refused.
pub fn frame(payload: &Vec<u8>) -> (r: Option<Vec<u8>>)
    ensures
        r is Some <==> newline_free(payload@),
        r matches Some(f) ==> f@ == encode_frame(payload@),
{
    let mut out: Vec<u8> = Vec::new();
    let mut i: usize = 0;
    while i < payload.len()
        invariant
            i <= payload@.len(),
            out@ == payload@.subrange(0, i as int),
            newline_free(out@),
        decreases payload@.len() - i,
    {
        if payload[i] == NEWLINE {
            return None;
        }
        out.push(payload[i]);
        proof {
            assert(out@ =~= payload@.subrange(0, i + 1));
        }
        i = i + 1;
    }
    assert(out@ =~= payload@);
    out.push(NEWLINE);
    Some(out)
}

/// Takes the first complete frame off the front of `buf`, without its
/// terminator.  With no complete frame, `buf` is left as it was.
pub fn take_frame(buf: &mut Vec<u8>) -> (r: Option<Vec<u8>>)
    ensures
        match split_first(old(buf)@) {
            Some((f, rest)) => r matches Some(g) && g@ == f && final(buf)@ == rest,
            None => r is None && final(buf)@ == old(buf)@,
        },
{
    let mut k: usize = 0;
    while k < buf.len()
        invariant
            buf@ == old(buf)@,
            k <= buf@.len(),
            newline_free(buf@.subrange(0, k as int)),
        decreases buf@.len() - k,
    {
        if buf[k] == NEWLINE {
            proof {
                assert(first_newline_at(buf@, k as int));
                let j = choose|j: int| first_newline_at(buf@, j);
                lemma_first_newline_unique(buf@, j, k as int);
            }
            let mut head = buf.split_off(k + 1);
            core::mem::swap(buf, &mut head);
            head.pop();
            proof {
                assert(head@ =~= old(buf)@.subrange(0, k as int));
            }
            return Some(head);
        }
        proof {
            assert(buf@.subrange(0, k + 1) =~= buf@.subrange(0, k as int).push(buf@[k as int]));
        }
        k = k + 1;
    }
    proof {
        assert(buf@.subrange(0, k as int) =~= buf@);
        assert forall|j: int| !first_newline_at(buf@, j) by {
            if 0 <= j < buf@.len() && buf@[j] == NEWLINE {
                assert(buf@.subrange(0, k as int)[j] == buf@[j]);
            }
        }
    }
    None
}

} // verus!
