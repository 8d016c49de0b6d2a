//! The meaning of `<think>...</think>` markup in model output, as mathematical functions.
//!
//! A stream is read in one of two modes: outside a think block (its characters are text) or
//! inside one (its characters are thinking). `<think>` switches from the first mode to the
//! second, `</think>` back; the tags themselves are dropped.
use vstd::prelude::*;
use vstd::seq_lib::lemma_flatten_concat;
use crate::text::{
    find_from, is_prefix, lemma_find_from, lemma_find_from_first, lemma_find_from_none,
    lemma_occurs_in_prefix, occurs_at,
};

verus! {

/// The tag that opens a think block.
pub open spec fn open_tag() -> Seq<char> {
    seq!['<', 't', 'h', 'i', 'n', 'k', '>']
}

/// The tag that closes a think block.
pub open spec fn close_tag() -> Seq<char> {
    seq!['<', '/', 't', 'h', 'i', 'n', 'k', '>']
}

/// The tag that ends the current mode: `</think>` inside a block, `<think>` outside.
pub open spec fn mode_tag(inside: bool) -> Seq<char> {
    if inside {
        close_tag()
    } else {
        open_tag()
    }
}

/// The text and thinking that a whole stream `s[pos..]` carries when read from mode `inside`,
/// to its end: text first, thinking second. What follows an unclosed `<think>` is thinking.
pub open spec fn stream_from(inside: bool, s: Seq<char>, pos: int) -> (Seq<char>, Seq<char>)
    decreases s.len() - pos,
{
    if pos < 0 || pos > s.len() {
        (Seq::empty(), Seq::empty())
    } else {
        let tag = mode_tag(inside);
        let p = find_from(s, tag, pos);
        if p >= 0 {
            proof {
                lemma_find_from(s, tag, pos);
            }
            let rest = stream_from(!inside, s, p + tag.len());
            let seg = s.subrange(pos, p);
            if inside {
                (rest.0, seg + rest.1)
            } else {
                (seg + rest.0, rest.1)
            }
        } else {
            let seg = s.subrange(pos, s.len() as int);
            if inside {
                (Seq::empty(), seg)
            } else {
                (seg, Seq::empty())
            }
        }
    }
}

/// The text and thinking of a whole stream `s`, read from mode `inside`.
pub open spec fn think_split(inside: bool, s: Seq<char>) -> (Seq<char>, Seq<char>) {
    stream_from(inside, s, 0)
}

/// Index of the last `<` in `s[lo..hi]`, or -1.
pub open spec fn last_lt(s: Seq<char>, lo: int, hi: int) -> int
    decreases hi - lo,
{
    if hi <= lo {
        -1
    } else if s[hi - 1] == '<' {
        hi - 1
    } else {
        last_lt(s, lo, hi - 1)
    }
}

/// Where the undecided tail of `s[pos..]` starts: at its last `<` when what follows it could
/// still grow into the tag of the mode, else at the end.
pub open spec fn pending_start(s: Seq<char>, pos: int, inside: bool) -> int {
    let l = last_lt(s, pos, s.len() as int);
    if l >= 0 && is_prefix(s.subrange(l, s.len() as int), mode_tag(inside)) {
        l
    } else {
        s.len() as int
    }
}

/// The outcome of reading one chunk: the text parts and thinking parts it delivers, in order,
/// the mode it ends in, and where the tail that waits for the next chunk starts.
pub struct ChunkScan {
    pub text: Seq<Seq<char>>,
    pub thinking: Seq<Seq<char>>,
    pub inside: bool,
    pub pending_at: int,
}

/// A one-element list holding `seg`, or the empty list when `seg` is empty.
pub open spec fn part(seg: Seq<char>) -> Seq<Seq<char>> {
    if seg.len() > 0 {
        seq![seg]
    } else {
        Seq::empty()
    }
}

/// Reads `s[pos..]` from mode `inside`: each stretch between tags becomes one part of the
/// channel of its mode (empty stretches give no part); after the last complete tag, the
/// stretch up to `pending_start` is delivered and the rest waits.
pub open spec fn scan_from(inside: bool, s: Seq<char>, pos: int) -> ChunkScan
    decreases s.len() - pos,
{
    if pos < 0 || pos > s.len() {
        ChunkScan { text: Seq::empty(), thinking: Seq::empty(), inside, pending_at: s.len() as int }
    } else {
        let tag = mode_tag(inside);
        let p = find_from(s, tag, pos);
        if p >= 0 {
            proof {
                lemma_find_from(s, tag, pos);
            }
            let rest = scan_from(!inside, s, p + tag.len());
            let seg = part(s.subrange(pos, p));
            if inside {
                ChunkScan { thinking: seg + rest.thinking, ..rest }
            } else {
                ChunkScan { text: seg + rest.text, ..rest }
            }
        } else {
            let l = pending_start(s, pos, inside);
            let seg = part(s.subrange(pos, l));
            if inside {
                ChunkScan { text: Seq::empty(), thinking: seg, inside, pending_at: l }
            } else {
                ChunkScan { text: seg, thinking: Seq::empty(), inside, pending_at: l }
            }
        }
    }
}

/// What a flush delivers from a waiting tail `pending` in mode `inside`: text first.
pub open spec fn flushed(inside: bool, pending: Seq<char>) -> (Seq<char>, Seq<char>) {
    if inside {
        (Seq::empty(), pending)
    } else {
        (pending, Seq::empty())
    }
}

/// A waiting tail that a buffer can hold: a proper prefix of the tag of its mode.
pub open spec fn pending_ok(inside: bool, pending: Seq<char>) -> bool {
    is_prefix(pending, mode_tag(inside)) && pending.len() < mode_tag(inside).len()
}

// ---------------------------------------------------------------------------------------
// Lemmas
// ---------------------------------------------------------------------------------------

proof fn lemma_part_flatten(seg: Seq<char>)
    ensures
        part(seg).flatten() == seg,
{
    let p = part(seg);
    if seg.len() > 0 {
        assert(p.drop_first() =~= Seq::<Seq<char>>::empty());
        assert(p.drop_first().flatten() =~= Seq::<char>::empty());
        assert(p.first() + p.drop_first().flatten() =~= seg);
    } else {
        assert(p.flatten() =~= Seq::<char>::empty());
        assert(seg =~= Seq::<char>::empty());
    }
}

proof fn lemma_tag_shape(inside: bool)
    ensures
        mode_tag(inside).len() > 0,
        mode_tag(inside)[0] == '<',
        forall|k: int| 1 <= k < mode_tag(inside).len() ==> mode_tag(inside)[k] != '<',
{
}

/// `last_lt` finds the last `<` of the range.
proof fn lemma_last_lt(s: Seq<char>, lo: int, hi: int)
    requires
        0 <= lo,
        hi <= s.len(),
    ensures
        last_lt(s, lo, hi) >= 0 ==> lo <= last_lt(s, lo, hi) < hi && s[last_lt(s, lo, hi)] == '<'
            && forall|k: int| last_lt(s, lo, hi) < k < hi ==> s[k] != '<',
        last_lt(s, lo, hi) < 0 ==> forall|k: int| lo <= k < hi ==> s[k] != '<',
    decreases hi - lo,
{
    if hi <= lo {
    } else if s[hi - 1] == '<' {
    } else {
        lemma_last_lt(s, lo, hi - 1);
    }
}

/// The last `<` of a range is the index `j` when `s[j] == '<'` and none follows it.
proof fn lemma_last_lt_is(s: Seq<char>, lo: int, hi: int, j: int)
    requires
        0 <= lo <= j < hi <= s.len(),
        s[j] == '<',
        forall|k: int| j < k < hi ==> s[k] != '<',
    ensures
        last_lt(s, lo, hi) == j,
    decreases hi - lo,
{
    if s[hi - 1] == '<' {
    } else {
        lemma_last_lt_is(s, lo, hi - 1, j);
    }
}

/// The undecided tail starts within the range it was looked for in.
pub proof fn lemma_pending_start_bounds(s: Seq<char>, pos: int, inside: bool)
    requires
        0 <= pos <= s.len(),
    ensures
        pos <= pending_start(s, pos, inside) <= s.len(),
{
    lemma_last_lt(s, pos, s.len() as int);
}

/// Skipping a stretch that holds no occurrence of the mode's tag does not change the result,
/// except that the stretch is delivered first.
proof fn lemma_stream_skip(inside: bool, s: Seq<char>, pos: int, l: int)
    requires
        0 <= pos <= l <= s.len(),
        forall|j: int| pos <= j < l ==> !occurs_at(s, mode_tag(inside), j),
    ensures
        stream_from(inside, s, pos) == ({
            let r = stream_from(inside, s, l);
            if inside {
                (r.0, s.subrange(pos, l) + r.1)
            } else {
                (s.subrange(pos, l) + r.0, r.1)
            }
        }),
{
    let tag = mode_tag(inside);
    lemma_tag_shape(inside);
    lemma_find_from(s, tag, pos);
    lemma_find_from(s, tag, l);
    let p = find_from(s, tag, pos);
    if p >= 0 {
        lemma_find_from_first(s, tag, l, p);
        assert(s.subrange(pos, p) =~= s.subrange(pos, l) + s.subrange(l, p));
    } else {
        assert(s.subrange(pos, s.len() as int) =~= s.subrange(pos, l) + s.subrange(
            l,
            s.len() as int,
        ));
    }
}

/// Reading a chunk and then the rest of a stream delivers what reading the whole stream
/// does: the parts of the chunk, then what the rest delivers from where the chunk left off.
proof fn lemma_scan_then_stream(inside: bool, s: Seq<char>, rest: Seq<char>, pos: int)
    requires
        0 <= pos <= s.len(),
    ensures
        ({
            let r = scan_from(inside, s, pos);
            let w = stream_from(r.inside, s + rest, r.pending_at);
            &&& pos <= r.pending_at <= s.len()
            &&& stream_from(inside, s + rest, pos) == (r.text.flatten() + w.0, r.thinking.flatten()
                + w.1)
        }),
    decreases s.len() - pos,
{
    let tag = mode_tag(inside);
    let big = s + rest;
    lemma_tag_shape(inside);
    lemma_find_from(s, tag, pos);
    lemma_find_from(big, tag, pos);
    let p = find_from(s, tag, pos);
    if p >= 0 {
        // The first occurrence in the chunk is the first one in the whole stream.
        lemma_occurs_in_prefix(s, rest, tag, p);
        assert forall|j: int| pos <= j < p implies !occurs_at(big, tag, j) by {
            lemma_occurs_in_prefix(s, rest, tag, j);
        }
        lemma_find_from_first(big, tag, pos, p);
        lemma_scan_then_stream(!inside, s, rest, p + tag.len());
        let seg = s.subrange(pos, p);
        assert(big.subrange(pos, p) =~= seg);
        let r2 = scan_from(!inside, s, p + tag.len());
        assert((part(seg) + r2.text).flatten() =~= part(seg).flatten() + r2.text.flatten()) by {
            lemma_flatten_concat(part(seg), r2.text);
        }
        assert((part(seg) + r2.thinking).flatten() =~= part(seg).flatten()
            + r2.thinking.flatten()) by {
            lemma_flatten_concat(part(seg), r2.thinking);
        }
        lemma_part_flatten(seg);
    } else {
        let l = pending_start(s, pos, inside);
        lemma_last_lt(s, pos, s.len() as int);
        // No occurrence of the tag starts in big[pos..l].
        assert forall|j: int| pos <= j < l implies !occurs_at(big, tag, j) by {
            if j + tag.len() <= s.len() {
                lemma_occurs_in_prefix(s, rest, tag, j);
            } else if occurs_at(big, tag, j) {
                // The occurrence would straddle the end of the chunk: its `<` is the chunk's
                // last `<`, and the chunk's tail from there is a prefix of the tag.
                assert(big[j] == tag[0]) by {
                    assert(big.subrange(j, j + tag.len())[0] == tag[0]);
                }
                assert forall|k: int| j < k < s.len() implies s[k] != '<' by {
                    assert(big.subrange(j, j + tag.len())[k - j] == tag[k - j]);
                    assert(big[k] == s[k]);
                }
                lemma_last_lt_is(s, pos, s.len() as int, j);
                assert(s.subrange(j, s.len() as int) =~= tag.subrange(0, s.len() - j)) by {
                    assert forall|k: int| 0 <= k < s.len() - j implies s.subrange(
                        j,
                        s.len() as int,
                    )[k] == tag.subrange(0, s.len() - j)[k] by {
                        assert(big.subrange(j, j + tag.len())[k] == tag[k]);
                        assert(big[j + k] == s[j + k]);
                    }
                }
                assert(false);
            }
        }
        lemma_stream_skip(inside, big, pos, l);
        let seg = s.subrange(pos, l);
        assert(big.subrange(pos, l) =~= seg);
        lemma_part_flatten(seg);
    }
}

/// Shifting a stream: reading `s` from `l` is reading `s[l..]` from its start.
proof fn lemma_stream_shift(inside: bool, s: Seq<char>, l: int, pos: int)
    requires
        0 <= l <= pos <= s.len(),
    ensures
        stream_from(inside, s, pos) == stream_from(inside, s.subrange(l, s.len() as int), pos - l),
    decreases s.len() - pos,
{
    let t = s.subrange(l, s.len() as int);
    let tag = mode_tag(inside);
    lemma_tag_shape(inside);
    lemma_find_from(s, tag, pos);
    lemma_find_from(t, tag, pos - l);
    assert forall|j: int| l <= j implies occurs_at(s, tag, j) == occurs_at(t, tag, j - l) by {
        if j + tag.len() <= s.len() {
            assert(s.subrange(j, j + tag.len()) =~= t.subrange(j - l, j - l + tag.len()));
        }
    }
    let p = find_from(s, tag, pos);
    if p >= 0 {
        assert forall|j: int| pos - l <= j < p - l implies !occurs_at(t, tag, j) by {
            assert(occurs_at(s, tag, j + l) == occurs_at(t, tag, j));
        }
        lemma_find_from_first(t, tag, pos - l, p - l);
        lemma_stream_shift(!inside, s, l, p + tag.len());
        assert(s.subrange(pos, p) =~= t.subrange(pos - l, p - l));
    } else {
        assert forall|j: int| pos - l <= j implies !occurs_at(t, tag, j) by {
            assert(occurs_at(s, tag, j + l) == occurs_at(t, tag, j));
        }
        lemma_find_from_none(t, tag, pos - l);
        assert(s.subrange(pos, s.len() as int) =~= t.subrange(pos - l, t.len() as int));
    }
}

/// The tail left waiting by a scan is a proper prefix of the tag of the mode the scan ends in.
proof fn lemma_scan_pending_ok(inside: bool, s: Seq<char>, pos: int)
    requires
        0 <= pos <= s.len(),
    ensures
        ({
            let r = scan_from(inside, s, pos);
            &&& pos <= r.pending_at <= s.len()
            &&& pending_ok(r.inside, s.subrange(r.pending_at, s.len() as int))
        }),
    decreases s.len() - pos,
{
    let tag = mode_tag(inside);
    lemma_tag_shape(inside);
    lemma_find_from(s, tag, pos);
    let p = find_from(s, tag, pos);
    if p >= 0 {
        lemma_scan_pending_ok(!inside, s, p + tag.len());
    } else {
        let l = pending_start(s, pos, inside);
        lemma_last_lt(s, pos, s.len() as int);
        let tail = s.subrange(l, s.len() as int);
        if l < s.len() {
            if tail.len() == tag.len() {
                assert(s.subrange(l, l + tag.len()) =~= tag);
                assert(occurs_at(s, tag, l));
            }
        } else {
            assert(tail =~= Seq::<char>::empty());
            assert(tag.subrange(0, 0) =~= Seq::<char>::empty());
        }
    }
}

/// A waiting tail holds no complete tag, so flushing delivers all of it in its mode.
pub proof fn lemma_pending_stream(inside: bool, pending: Seq<char>)
    requires
        pending_ok(inside, pending),
    ensures
        think_split(inside, pending) == flushed(inside, pending),
{
    let tag = mode_tag(inside);
    lemma_tag_shape(inside);
    assert forall|j: int| 0 <= j implies !occurs_at(pending, tag, j) by {}
    lemma_find_from_none(pending, tag, 0);
    assert(pending.subrange(0, pending.len() as int) =~= pending);
}

// ---------------------------------------------------------------------------------------
// Laws
// ---------------------------------------------------------------------------------------

/// Streaming law: reading a chunk after a waiting tail `pending`, the parts it delivers
/// followed by what the rest of the stream delivers from the new mode and the new waiting
/// tail are exactly the text and thinking of the whole stream `pending + chunk + rest`.
/// The new tail can again be held by a buffer.
pub proof fn lemma_chunk_streaming(
    inside: bool,
    pending: Seq<char>,
    chunk: Seq<char>,
    rest: Seq<char>,
)
    ensures
        ({
            let input = pending + chunk;
            let r = scan_from(inside, input, 0);
            let tail = input.subrange(r.pending_at, input.len() as int);
            let w = think_split(r.inside, tail + rest);
            &&& pending_ok(r.inside, tail)
            &&& think_split(inside, input + rest) == (r.text.flatten() + w.0, r.thinking.flatten()
                + w.1)
        }),
{
    let input = pending + chunk;
    let r = scan_from(inside, input, 0);
    lemma_scan_then_stream(inside, input, rest, 0);
    lemma_scan_pending_ok(inside, input, 0);
    let big = input + rest;
    lemma_stream_shift(r.inside, big, r.pending_at, r.pending_at);
    let tail = input.subrange(r.pending_at, input.len() as int);
    assert(big.subrange(r.pending_at, big.len() as int) =~= tail + rest);
}

/// Flush law: for a tail a buffer can hold, reading one chunk and then flushing delivers
/// exactly the text and thinking of the whole stream `pending + chunk`.
pub proof fn lemma_chunk_then_flush(inside: bool, pending: Seq<char>, chunk: Seq<char>)
    ensures
        ({
            let input = pending + chunk;
            let r = scan_from(inside, input, 0);
            let tail = input.subrange(r.pending_at, input.len() as int);
            let f = flushed(r.inside, tail);
            think_split(inside, input) == (r.text.flatten() + f.0, r.thinking.flatten() + f.1)
        }),
{
    let input = pending + chunk;
    lemma_chunk_streaming(inside, pending, chunk, Seq::empty());
    let r = scan_from(inside, input, 0);
    let tail = input.subrange(r.pending_at, input.len() as int);
    assert(input + Seq::<char>::empty() =~= input);
    assert(tail + Seq::<char>::empty() =~= tail);
    lemma_pending_stream(r.inside, tail);
}

/// Chunking law: the text and thinking delivered by the end of a stream (after the flush) do
/// not depend on where the stream was cut into chunks: reading `a` and then `b` delivers what
/// reading `a + b` at once delivers, and both are the text and thinking of `pending + a + b`.
pub proof fn lemma_chunking_independent(
    inside: bool,
    pending: Seq<char>,
    a: Seq<char>,
    b: Seq<char>,
)
    ensures
        ({
            let ia = pending + a;
            let ra = scan_from(inside, ia, 0);
            let ta = ia.subrange(ra.pending_at, ia.len() as int);
            let ib = ta + b;
            let rb = scan_from(ra.inside, ib, 0);
            let tb = ib.subrange(rb.pending_at, ib.len() as int);
            let fb = flushed(rb.inside, tb);
            let iab = pending + (a + b);
            let rab = scan_from(inside, iab, 0);
            let tab = iab.subrange(rab.pending_at, iab.len() as int);
            let fab = flushed(rab.inside, tab);
            &&& (ra.text.flatten() + rb.text.flatten() + fb.0, ra.thinking.flatten()
                + rb.thinking.flatten() + fb.1) == think_split(inside, pending + a + b)
            &&& (rab.text.flatten() + fab.0, rab.thinking.flatten() + fab.1) == think_split(
                inside,
                pending + a + b,
            )
        }),
{
    let ia = pending + a;
    let ra = scan_from(inside, ia, 0);
    let ta = ia.subrange(ra.pending_at, ia.len() as int);
    lemma_chunk_streaming(inside, pending, a, b);
    lemma_chunk_then_flush(ra.inside, ta, b);
    lemma_chunk_then_flush(inside, pending, a + b);
    assert(pending + (a + b) =~= pending + a + b);
    let ib = ta + b;
    let rb = scan_from(ra.inside, ib, 0);
    assert(ra.text.flatten() + rb.text.flatten() + flushed(
        rb.inside,
        ib.subrange(rb.pending_at, ib.len() as int),
    ).0 =~= ra.text.flatten() + (rb.text.flatten() + flushed(
        rb.inside,
        ib.subrange(rb.pending_at, ib.len() as int),
    ).0));
    assert(ra.thinking.flatten() + rb.thinking.flatten() + flushed(
        rb.inside,
        ib.subrange(rb.pending_at, ib.len() as int),
    ).1 =~= ra.thinking.flatten() + (rb.thinking.flatten() + flushed(
        rb.inside,
        ib.subrange(rb.pending_at, ib.len() as int),
    ).1));
}

/// What a buffer in mode `inside`, waiting on `pending`, delivers when it reads `chunks` one
/// after another and is then flushed: the text parts of each chunk and of the flush, and
/// likewise the thinking parts, concatenated in order.
pub open spec fn feed_all(inside: bool, pending: Seq<char>, chunks: Seq<Seq<char>>) -> (
    Seq<char>,
    Seq<char>,
)
    decreases chunks.len(),
{
    if chunks.len() == 0 {
        flushed(inside, pending)
    } else {
        let input = pending + chunks[0];
        let r = scan_from(inside, input, 0);
        let tail = input.subrange(r.pending_at, input.len() as int);
        let rest = feed_all(r.inside, tail, chunks.drop_first());
        (r.text.flatten() + rest.0, r.thinking.flatten() + rest.1)
    }
}

/// Chunking law for any number of chunks: reading the chunks and flushing delivers exactly
/// the text and thinking of the whole stream, the waiting tail followed by all the chunks.
pub proof fn lemma_feed_all(inside: bool, pending: Seq<char>, chunks: Seq<Seq<char>>)
    requires
        pending_ok(inside, pending),
    ensures
        feed_all(inside, pending, chunks) == think_split(inside, pending + chunks.flatten()),
    decreases chunks.len(),
{
    if chunks.len() == 0 {
        lemma_pending_stream(inside, pending);
        assert(pending + chunks.flatten() =~= pending);
    } else {
        let rest = chunks.drop_first();
        let input = pending + chunks[0];
        lemma_chunk_streaming(inside, pending, chunks[0], rest.flatten());
        let r = scan_from(inside, input, 0);
        let tail = input.subrange(r.pending_at, input.len() as int);
        lemma_feed_all(r.inside, tail, rest);
        assert(pending + chunks.flatten() =~= input + rest.flatten());
    }
}

/// Chunk boundaries never change what a fresh buffer delivers by the end of a stream: two
/// ways of cutting the same text into chunks deliver the same text and the same thinking.
pub proof fn lemma_chunk_boundaries_irrelevant(a: Seq<Seq<char>>, b: Seq<Seq<char>>)
    requires
        a.flatten() == b.flatten(),
    ensures
        feed_all(false, Seq::empty(), a) == feed_all(false, Seq::empty(), b),
        feed_all(false, Seq::empty(), a) == think_split(false, a.flatten()),
{
    assert(mode_tag(false).subrange(0, 0) =~= Seq::<char>::empty());
    assert(pending_ok(false, Seq::empty()));
    lemma_feed_all(false, Seq::empty(), a);
    lemma_feed_all(false, Seq::empty(), b);
    assert(Seq::<char>::empty() + a.flatten() =~= a.flatten());
    assert(Seq::<char>::empty() + b.flatten() =~= b.flatten());
}

/// No `<` or `>` in a stretch of text.
pub open spec fn no_angle(s: Seq<char>) -> bool {
    forall|i: int| 0 <= i < s.len() ==> #[trigger] s[i] != '<' && s[i] != '>'
}

/// A stream of stretches of text, each followed by a think block, then a last stretch:
/// `t0<think>h0</think>t1<think>h1</think>...last`.
pub open spec fn tagged(blocks: Seq<(Seq<char>, Seq<char>)>, last: Seq<char>) -> Seq<char>
    decreases blocks.len(),
{
    if blocks.len() == 0 {
        last
    } else {
        blocks[0].0 + open_tag() + blocks[0].1 + close_tag() + tagged(blocks.drop_first(), last)
    }
}

/// The stretches of text of such a stream, concatenated.
pub open spec fn tagged_text(blocks: Seq<(Seq<char>, Seq<char>)>, last: Seq<char>) -> Seq<char>
    decreases blocks.len(),
{
    if blocks.len() == 0 {
        last
    } else {
        blocks[0].0 + tagged_text(blocks.drop_first(), last)
    }
}

/// The think blocks of such a stream, concatenated.
pub open spec fn tagged_thinking(blocks: Seq<(Seq<char>, Seq<char>)>) -> Seq<char>
    decreases blocks.len(),
{
    if blocks.len() == 0 {
        Seq::empty()
    } else {
        blocks[0].1 + tagged_thinking(blocks.drop_first())
    }
}

/// Reading from mode `inside` a stretch without `<` up to the tag of that mode.
proof fn lemma_stretch_then_tag(inside: bool, u: Seq<char>, rest: Seq<char>)
    requires
        no_angle(u),
    ensures
        ({
            let s = u + mode_tag(inside) + rest;
            let r = think_split(!inside, rest);
            think_split(inside, s) == if inside {
                (r.0, u + r.1)
            } else {
                (u + r.0, r.1)
            }
        }),
{
    let tag = mode_tag(inside);
    lemma_tag_shape(inside);
    let s = u + tag + rest;
    let p = u.len() as int;
    assert(s.subrange(p, p + tag.len()) =~= tag);
    assert forall|j: int| 0 <= j < p implies !occurs_at(s, tag, j) by {
        assert(s[j] == u[j]);
        if occurs_at(s, tag, j) {
            assert(s.subrange(j, j + tag.len())[0] == s[j]);
        }
    }
    lemma_find_from_first(s, tag, 0, p);
    lemma_stream_shift(!inside, s, p + tag.len(), p + tag.len());
    assert(s.subrange(p + tag.len(), s.len() as int) =~= rest);
    assert(s.subrange(0, p) =~= u);
}

/// A stretch without `<` read from mode `inside` to the end of the stream.
proof fn lemma_stretch_to_end(inside: bool, u: Seq<char>)
    requires
        no_angle(u),
    ensures
        think_split(inside, u) == if inside {
            (Seq::<char>::empty(), u)
        } else {
            (u, Seq::<char>::empty())
        },
{
    let tag = mode_tag(inside);
    lemma_tag_shape(inside);
    assert forall|j: int| 0 <= j implies !occurs_at(u, tag, j) by {
        if occurs_at(u, tag, j) {
            assert(u.subrange(j, j + tag.len())[0] == u[j]);
        }
    }
    lemma_find_from_none(u, tag, 0);
    assert(u.subrange(0, u.len() as int) =~= u);
}

/// Separation law: in a stream of stretches of text and think blocks without `<` or `>`,
/// the text is exactly the stretches of text and the thinking exactly the think blocks; no
/// thinking leaks into the text and no text into the thinking.
pub proof fn lemma_tagged_separation(blocks: Seq<(Seq<char>, Seq<char>)>, last: Seq<char>)
    requires
        forall|k: int| 0 <= k < blocks.len() ==> no_angle(#[trigger] blocks[k].0) && no_angle(
            blocks[k].1,
        ),
        no_angle(last),
    ensures
        think_split(false, tagged(blocks, last)) == (tagged_text(blocks, last), tagged_thinking(
            blocks,
        )),
    decreases blocks.len(),
{
    if blocks.len() == 0 {
        lemma_stretch_to_end(false, last);
    } else {
        let t = blocks[0].0;
        let h = blocks[0].1;
        let rest = blocks.drop_first();
        assert forall|k: int| 0 <= k < rest.len() implies no_angle(#[trigger] rest[k].0)
            && no_angle(rest[k].1) by {
            assert(rest[k] == blocks[k + 1]);
        }
        lemma_tagged_separation(rest, last);
        let after = tagged(rest, last);
        lemma_stretch_then_tag(true, h, after);
        lemma_stretch_then_tag(false, t, h + close_tag() + after);
        assert(tagged(blocks, last) =~= t + open_tag() + (h + close_tag() + after));
        assert(h + close_tag() + after =~= h + mode_tag(true) + after);
    }
}

/// Every part a scan delivers holds at least one character.
pub proof fn lemma_scan_parts_nonempty(inside: bool, s: Seq<char>, pos: int)
    ensures
        forall|k: int|
            0 <= k < scan_from(inside, s, pos).text.len() ==> (#[trigger] scan_from(
                inside,
                s,
                pos,
            ).text[k]).len() > 0,
        forall|k: int|
            0 <= k < scan_from(inside, s, pos).thinking.len() ==> (#[trigger] scan_from(
                inside,
                s,
                pos,
            ).thinking[k]).len() > 0,
    decreases s.len() - pos,
{
    if 0 <= pos <= s.len() {
        let tag = mode_tag(inside);
        lemma_tag_shape(inside);
        let p = find_from(s, tag, pos);
        lemma_find_from(s, tag, pos);
        if p >= 0 {
            lemma_scan_parts_nonempty(!inside, s, p + tag.len());
            let rest = scan_from(!inside, s, p + tag.len());
            let seg = part(s.subrange(pos, p));
            assert forall|k: int| 0 <= k < (seg + rest.text).len() implies (#[trigger] (seg
                + rest.text)[k]).len() > 0 by {
                if k >= seg.len() {
                    assert((seg + rest.text)[k] == rest.text[k - seg.len()]);
                }
            }
            assert forall|k: int| 0 <= k < (seg + rest.thinking).len() implies (#[trigger] (seg
                + rest.thinking)[k]).len() > 0 by {
                if k >= seg.len() {
                    assert((seg + rest.thinking)[k] == rest.thinking[k - seg.len()]);
                }
            }
        }
    }
}

/// Reading an empty chunk in a state a buffer can be in delivers nothing and changes nothing.
pub proof fn lemma_empty_chunk(inside: bool, pending: Seq<char>)
    requires
        pending_ok(inside, pending),
    ensures
        scan_from(inside, pending + Seq::<char>::empty(), 0) == (ChunkScan {
            text: Seq::empty(),
            thinking: Seq::empty(),
            inside,
            pending_at: 0,
        }),
{
    let s = pending + Seq::<char>::empty();
    assert(s =~= pending);
    let tag = mode_tag(inside);
    lemma_tag_shape(inside);
    assert forall|j: int| 0 <= j implies !occurs_at(s, tag, j) by {}
    lemma_find_from_none(s, tag, 0);
    if s.len() > 0 {
        assert(s[0] == tag[0]);
        assert forall|k: int| 0 < k < s.len() implies s[k] != '<' by {
            assert(s[k] == tag[k]);
        }
        lemma_last_lt_is(s, 0, s.len() as int, 0);
        assert(s.subrange(0, s.len() as int) =~= s);
    } else {
        lemma_last_lt(s, 0, 0);
    }
    assert(part(s.subrange(0, pending_start(s, 0, inside))) =~= Seq::<Seq<char>>::empty());
}

} // verus!
