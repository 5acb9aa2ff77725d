//! Splitting a UART byte stream into `0x00`-delimited COBS frames.

use vstd::prelude::*;

verus! {

/// Index of the first `0x00` of `s` at or after `from`, or `s.len()`.
pub open spec fn next_zero(s: Seq<u8>, from: int) -> int
    decreases s.len() - from,
{
    if from >= s.len() {
        s.len() as int
    } else if s[from] == 0 {
        from
    } else {
        next_zero(s, from + 1)
    }
}

/// The non-empty frames of `s` that are closed by a `0x00` at or after `from`.
pub open spec fn closed_frames(s: Seq<u8>, from: int) -> Seq<Seq<u8>>
    decreases s.len() - from,
{
    if from < 0 || from >= s.len() {
        Seq::empty()
    } else {
        let z = next_zero(s, from);
        proof {
            lemma_next_zero_bounds(s, from);
        }
        if z >= s.len() {
            Seq::empty()
        } else if z > from {
            seq![s.subrange(from, z)] + closed_frames(s, z + 1)
        } else {
            closed_frames(s, z + 1)
        }
    }
}

/// Where the bytes that no `0x00` closes yet begin, scanning from `from`.
pub open spec fn open_tail_start(s: Seq<u8>, from: int) -> int
    decreases s.len() - from,
{
    if from < 0 || from >= s.len() {
        from
    } else {
        let z = next_zero(s, from);
        proof {
            lemma_next_zero_bounds(s, from);
        }
        if z >= s.len() {
            from
        } else {
            open_tail_start(s, z + 1)
        }
    }
}

pub proof fn lemma_next_zero_bounds(s: Seq<u8>, from: int)
    requires
        0 <= from <= s.len(),
    ensures
        from <= next_zero(s, from) <= s.len(),
        next_zero(s, from) < s.len() ==> s[next_zero(s, from)] == 0,
        forall|k: int| from <= k < next_zero(s, from) ==> s[k] != 0,
    decreases s.len() - from,
{
    if from < s.len() && s[from] != 0 {
        lemma_next_zero_bounds(s, from + 1);
    }
}

proof fn lemma_tail_bounds(s: Seq<u8>, from: int)
    requires
        0 <= from <= s.len(),
    ensures
        from <= open_tail_start(s, from) <= s.len(),
    decreases s.len() - from,
{
    if from < s.len() {
        lemma_next_zero_bounds(s, from);
        let z = next_zero(s, from);
        if z < s.len() {
            lemma_tail_bounds(s, z + 1);
        }
    }
}

/// Cuts the complete frames out of `buffer`: every non-empty run of bytes
/// closed by a `0x00`, in order. Empty runs (back-to-back delimiters) are
/// skipped. The bytes after the last `0x00` stay in `buffer` for the next
/// read; everything before them is consumed.
pub fn split_cobs_frames(buffer: &mut Vec<u8>) -> (frames: Vec<Vec<u8>>)
    ensures
        frames@.map_values(|f: Vec<u8>| f@) == closed_frames(old(buffer)@, 0),
        final(buffer)@ == old(buffer)@.subrange(open_tail_start(old(buffer)@, 0), old(buffer)@.len() as int),
{
    let ghost s = buffer@;
    let mut frames: Vec<Vec<u8>> = Vec::new();
    let mut start: usize = 0;
    let mut idx: usize = 0;
    let n = buffer.len();
    let mut cur: Vec<u8> = Vec::new();
    proof {
        lemma_next_zero_bounds(s, 0);
    }
    while idx < n
        invariant
            n == s.len(),
            buffer@ == s,
            start <= idx <= n,
            forall|k: int| start <= k < idx ==> s[k] != 0,
            cur@ == s.subrange(start as int, idx as int),
            frames@.map_values(|f: Vec<u8>| f@) + closed_frames(s, start as int) == closed_frames(s, 0),
            open_tail_start(s, start as int) == open_tail_start(s, 0),
        decreases n - idx,
    {
        let b = buffer[idx];
        if b == 0 {
            proof {
                lemma_next_zero_bounds(s, start as int);
                assert(next_zero(s, start as int) == idx) by {
                    lemma_next_zero_at(s, start as int, idx as int);
                }
            }
            if idx > start {
                let ghost before = frames@.map_values(|f: Vec<u8>| f@);
                frames.push(cur);
                proof {
                    assert(frames@.map_values(|f: Vec<u8>| f@) =~= before.push(s.subrange(start as int, idx as int)));
                    assert(before.push(s.subrange(start as int, idx as int)) + closed_frames(s, idx + 1)
                        =~= before + (seq![s.subrange(start as int, idx as int)] + closed_frames(s, idx + 1)));
                }
            }
            cur = Vec::new();
            start = idx + 1;
        } else {
            cur.push(b);
        }
        idx += 1;
        proof {
            assert(cur@ =~= s.subrange(start as int, idx as int));
        }
    }
    proof {
        lemma_next_zero_bounds(s, start as int);
        assert(next_zero(s, start as int) == n) by {
            lemma_next_zero_none(s, start as int);
        }
        assert(closed_frames(s, start as int) =~= Seq::<Seq<u8>>::empty());
        assert(frames@.map_values(|f: Vec<u8>| f@) + Seq::<Seq<u8>>::empty() =~= frames@.map_values(|f: Vec<u8>| f@));
    }
    // Keep the unterminated tail.
    let mut rest: Vec<u8> = Vec::new();
    let mut j: usize = start;
    while j < n
        invariant
            n == s.len(),
            buffer@ == s,
            start <= j <= n,
            rest@ =~= s.subrange(start as int, j as int),
        decreases n - j,
    {
        rest.push(buffer[j]);
        j += 1;
    }
    *buffer = rest;
    frames
}

proof fn lemma_next_zero_at(s: Seq<u8>, from: int, z: int)
    requires
        0 <= from <= z < s.len(),
        s[z] == 0,
        forall|k: int| from <= k < z ==> s[k] != 0,
    ensures
        next_zero(s, from) == z,
    decreases z - from,
{
    if from < z {
        lemma_next_zero_at(s, from + 1, z);
    }
}

proof fn lemma_next_zero_none(s: Seq<u8>, from: int)
    requires
        0 <= from <= s.len(),
        forall|k: int| from <= k < s.len() ==> s[k] != 0,
    ensures
        next_zero(s, from) == s.len(),
    decreases s.len() - from,
{
    if from < s.len() {
        lemma_next_zero_none(s, from + 1);
    }
}

/// A byte stream of frames, each followed by its `0x00` delimiter.
pub open spec fn delimited(frames: Seq<Seq<u8>>) -> Seq<u8>
    decreases frames.len(),
{
    if frames.len() == 0 {
        Seq::empty()
    } else {
        frames[0] + seq![0u8] + delimited(frames.drop_first())
    }
}

proof fn lemma_next_zero_shift(p: Seq<u8>, t: Seq<u8>, i: int)
    requires
        0 <= i <= t.len(),
    ensures
        next_zero(p + t, p.len() + i) == p.len() + next_zero(t, i),
    decreases t.len() - i,
{
    if i < t.len() && t[i] != 0 {
        lemma_next_zero_shift(p, t, i + 1);
    }
}

proof fn lemma_closed_shift(p: Seq<u8>, t: Seq<u8>, i: int)
    requires
        0 <= i <= t.len(),
    ensures
        closed_frames(p + t, p.len() + i) == closed_frames(t, i),
        open_tail_start(p + t, p.len() + i) == p.len() + open_tail_start(t, i),
    decreases t.len() - i,
{
    if i < t.len() {
        lemma_next_zero_shift(p, t, i);
        lemma_next_zero_bounds(t, i);
        let z = next_zero(t, i);
        if z < t.len() {
            lemma_closed_shift(p, t, z + 1);
            if z > i {
                assert((p + t).subrange(p.len() + i, p.len() + z) =~= t.subrange(i, z));
            }
        }
    }
}

/// Splitting a stream of non-empty, zero-free frames (such as COBS
/// encodings), each closed by `0x00`, gives back exactly those frames and
/// leaves nothing pending.
pub proof fn law_split_delimited(frames: Seq<Seq<u8>>)
    requires
        forall|i: int| 0 <= i < frames.len() ==> frames[i].len() > 0 && !(#[trigger] frames[i]).contains(0u8),
    ensures
        closed_frames(delimited(frames), 0) == frames,
        open_tail_start(delimited(frames), 0) == delimited(frames).len(),
    decreases frames.len(),
{
    if frames.len() > 0 {
        let f = frames[0];
        let rest = frames.drop_first();
        assert forall|i: int| 0 <= i < rest.len() implies rest[i].len() > 0 && !(#[trigger] rest[i]).contains(0u8) by {
            assert(rest[i] == frames[i + 1]);
        }
        law_split_delimited(rest);
        let head = f + seq![0u8];
        let s = delimited(frames);
        assert(s =~= head + delimited(rest));
        assert forall|k: int| 0 <= k < f.len() implies s[k] != 0 by {
            assert(s[k] == f[k]);
            if f[k] == 0 {
                assert(f.contains(0u8));
            }
        }
        assert(s[f.len() as int] == 0);
        lemma_next_zero_at(s, 0, f.len() as int);
        lemma_closed_shift(head, delimited(rest), 0);
        assert(s.subrange(0, f.len() as int) =~= f);
        assert(closed_frames(s, 0) =~= seq![f] + rest);
        assert(seq![f] + rest =~= frames);
    }
}

} // verus!
