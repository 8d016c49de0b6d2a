//! Separates `<think>...</think>` content from text in a stream of chunks whose boundaries may
//! fall inside a tag.
use vstd::prelude::*;
use crate::text::{
    copy_range, find_in, is_prefix, lemma_find_from, push_chars, push_str,
    string_of_range,
};
use crate::llm::think_tags::{
    last_lt, mode_tag, part, pending_ok, pending_start, scan_from, lemma_chunk_streaming,
    lemma_empty_chunk, lemma_scan_parts_nonempty,
};

verus! {

/// Buffer that tracks whether the stream is inside a think block and keeps the undecided tail
/// of the last chunk (a possible beginning of a tag) until the next chunk decides it.
pub struct ThinkTagBuffer {
    inside_think: bool,
    pending: Vec<char>,
}

impl View for ThinkTagBuffer {
    /// Whether the stream is inside a think block, and the tail that waits for the next chunk.
    type V = (bool, Seq<char>);

    closed spec fn view(&self) -> (bool, Seq<char>) {
        (self.inside_think, self.pending@)
    }
}

/// The views of a list of strings.
pub open spec fn views(v: Seq<String>) -> Seq<Seq<char>> {
    v.map_values(|s: String| s@)
}

/// The characters of the tag that ends the current mode.
fn tag_chars(inside: bool) -> (t: Vec<char>)
    ensures
        t@ == mode_tag(inside),
{
    if inside {
        let t = vec!['<', '/', 't', 'h', 'i', 'n', 'k', '>'];
        assert(t@ =~= mode_tag(inside));
        t
    } else {
        let t = vec!['<', 't', 'h', 'i', 'n', 'k', '>'];
        assert(t@ =~= mode_tag(inside));
        t
    }
}

/// Index of the last `<` in `s[lo..]`, if any.
fn last_lt_index(s: &Vec<char>, lo: usize) -> (r: Option<usize>)
    requires
        lo <= s.len(),
    ensures
        match r {
            Some(l) => l < s.len() && l as int == last_lt(s@, lo as int, s@.len() as int),
            None => last_lt(s@, lo as int, s@.len() as int) < 0,
        },
{
    let mut hi = s.len();
    while hi > lo
        invariant
            lo <= hi <= s.len(),
            last_lt(s@, lo as int, s@.len() as int) == last_lt(s@, lo as int, hi as int),
        decreases hi - lo,
    {
        if s[hi - 1] == '<' {
            return Some(hi - 1);
        }
        hi -= 1;
    }
    None
}

/// Whether `s[l..]` is a prefix of `tag`.
fn tail_is_prefix(s: &Vec<char>, l: usize, tag: &Vec<char>) -> (b: bool)
    requires
        l <= s.len(),
    ensures
        b == is_prefix(s@.subrange(l as int, s@.len() as int), tag@),
{
    let n = s.len() - l;
    if n > tag.len() {
        return false;
    }
    let mut k: usize = 0;
    while k < n
        invariant
            n == s.len() - l,
            n <= tag.len(),
            k <= n,
            forall|m: int| 0 <= m < k ==> s@[l + m] == tag@[m],
        decreases n - k,
    {
        if s[l + k] != tag[k] {
            assert(tag@.subrange(0, n as int)[k as int] != s@.subrange(l as int, s@.len() as int)[k as int]);
            return false;
        }
        k += 1;
    }
    assert(tag@.subrange(0, n as int) =~= s@.subrange(l as int, s@.len() as int));
    true
}

/// Where the undecided tail of `s[pos..]` starts.
fn pending_start_index(s: &Vec<char>, pos: usize, tag: &Vec<char>, inside: bool) -> (l: usize)
    requires
        pos <= s.len(),
        tag@ == mode_tag(inside),
    ensures
        l as int == pending_start(s@, pos as int, inside),
{
    match last_lt_index(s, pos) {
        Some(l) => {
            if tail_is_prefix(s, l, tag) {
                l
            } else {
                s.len()
            }
        },
        None => s.len(),
    }
}

proof fn lemma_views_push(v: Seq<String>, s: String)
    ensures
        views(v.push(s)) == views(v) + seq![s@],
{
    assert(views(v.push(s)) =~= views(v) + seq![s@]);
}

impl Default for ThinkTagBuffer {
    /// A buffer outside any think block, with nothing waiting.
    fn default() -> (b: Self)
        ensures
            b@ == (false, Seq::<char>::empty()),
    {
        ThinkTagBuffer::new()
    }
}

impl ThinkTagBuffer {
    /// A buffer outside any think block, with nothing waiting.
    pub fn new() -> (b: Self)
        ensures
            b@ == (false, Seq::<char>::empty()),
            pending_ok(b@.0, b@.1),
    {
        proof {
            assert(mode_tag(false).subrange(0, 0) =~= Seq::<char>::empty());
        }
        ThinkTagBuffer { inside_think: false, pending: Vec::new() }
    }

    /// Whether the stream is currently inside a think block.
    pub fn is_inside_think(&self) -> (b: bool)
        ensures
            b == self@.0,
    {
        self.inside_think
    }

    /// Reads one chunk after the waiting tail and returns `(text_parts, thinking_parts)`: the
    /// stretches between tags, each as one part of its channel, in order, empty stretches left
    /// out. After the last complete tag, a tail that could still become the next tag waits for
    /// the next chunk; the rest of the chunk is delivered.
    pub fn process_chunk(&mut self, chunk: &str) -> (parts: (Vec<String>, Vec<String>))
        ensures
            ({
                let input = old(self)@.1 + chunk@;
                let r = scan_from(old(self)@.0, input, 0);
                &&& views(parts.0@) == r.text
                &&& views(parts.1@) == r.thinking
                &&& final(self)@ == (r.inside, input.subrange(r.pending_at, input.len() as int))
                &&& pending_ok(final(self)@.0, final(self)@.1)
            }),
            forall|k: int| 0 <= k < parts.0@.len() ==> (#[trigger] parts.0@[k])@.len() > 0,
            forall|k: int| 0 <= k < parts.1@.len() ==> (#[trigger] parts.1@[k])@.len() > 0,
            pending_ok(old(self)@.0, old(self)@.1) && chunk@.len() == 0 ==> parts.0@.len() == 0
                && parts.1@.len() == 0 && final(self)@ == old(self)@,
    {
        proof {
            lemma_scan_parts_nonempty(old(self)@.0, old(self)@.1 + chunk@, 0);
            if pending_ok(old(self)@.0, old(self)@.1) && chunk@.len() == 0 {
                assert(chunk@ =~= Seq::<char>::empty());
                lemma_empty_chunk(old(self)@.0, old(self)@.1);
            }
        }
        let mut input: Vec<char> = Vec::new();
        push_chars(&mut input, &self.pending);
        push_str(&mut input, chunk);
        let ghost inside0 = self.inside_think;
        let ghost s = input@;
        assert(s =~= old(self)@.1 + chunk@);
        self.pending = Vec::new();
        let mut text_parts: Vec<String> = Vec::new();
        let mut thinking_parts: Vec<String> = Vec::new();
        let mut inside = self.inside_think;
        let mut pos: usize = 0;
        let mut pending: Vec<char> = Vec::new();
        let mut done = false;
        assert(s.subrange(0, s.len() as int) =~= s);
        while !done
            invariant
                input@ == s,
                pos <= input.len(),
                ({
                    let r0 = scan_from(inside0, s, 0);
                    let r = scan_from(inside, s, pos as int);
                    &&& done ==> {
                        &&& views(text_parts@) == r0.text
                        &&& views(thinking_parts@) == r0.thinking
                        &&& inside == r0.inside
                        &&& pending@ == s.subrange(r0.pending_at, s.len() as int)
                    }
                    &&& !done ==> {
                        &&& r0.text == views(text_parts@) + r.text
                        &&& r0.thinking == views(thinking_parts@) + r.thinking
                        &&& r0.inside == r.inside
                        &&& r0.pending_at == r.pending_at
                    }
                }),
            decreases input.len() - pos + (if done { 0int } else { 1int }),
        {
            let tag = tag_chars(inside);
            let ghost r = scan_from(inside, s, pos as int);
            assert(s.subrange(0, input.len() as int) =~= s);
            match find_in(&input, &tag, pos, input.len()) {
                Some(p) => {
                    proof {
                        lemma_find_from(s, mode_tag(inside), pos as int);
                    }
                    let ghost rest = scan_from(!inside, s, p + tag.len());
                    if p > pos {
                        let seg = string_of_range(&input, pos, p);
                        proof {
                            assert(part(s.subrange(pos as int, p as int)) == seq![seg@]);
                        }
                        if inside {
                            proof {
                                lemma_views_push(thinking_parts@, seg);
                            }
                            thinking_parts.push(seg);
                        } else {
                            proof {
                                lemma_views_push(text_parts@, seg);
                            }
                            text_parts.push(seg);
                        }
                    } else {
                        assert(part(s.subrange(pos as int, p as int)) =~= Seq::<Seq<char>>::empty());
                    }
                    pos = p + tag.len();
                    inside = !inside;
                    assert(scan_from(inside0, s, 0).text =~= views(text_parts@) + rest.text);
                    assert(scan_from(inside0, s, 0).thinking =~= views(thinking_parts@)
                        + rest.thinking);
                },
                None => {
                    let l = pending_start_index(&input, pos, &tag, inside);
                    proof {
                        crate::llm::think_tags::lemma_pending_start_bounds(s, pos as int, inside);
                    }
                    if l > pos {
                        let seg = string_of_range(&input, pos, l);
                        assert(part(s.subrange(pos as int, l as int)) == seq![seg@]);
                        if inside {
                            proof {
                                lemma_views_push(thinking_parts@, seg);
                            }
                            thinking_parts.push(seg);
                        } else {
                            proof {
                                lemma_views_push(text_parts@, seg);
                            }
                            text_parts.push(seg);
                        }
                    } else {
                        assert(l == pos) by {
                            crate::llm::think_tags::lemma_pending_start_bounds(s, pos as int, inside);
                        }
                        assert(part(s.subrange(pos as int, l as int)) =~= Seq::<Seq<char>>::empty());
                    }
                    assert(views(text_parts@) =~= scan_from(inside0, s, 0).text);
                    assert(views(thinking_parts@) =~= scan_from(inside0, s, 0).thinking);
                    proof {
                        crate::llm::think_tags::lemma_pending_start_bounds(s, pos as int, inside);
                    }
                    pending = copy_range(&input, l, input.len());
                    done = true;
                },
            }
        }
        self.inside_think = inside;
        self.pending = pending;
        proof {
            lemma_chunk_streaming(inside0, old(self)@.1, chunk@, Seq::empty());
            lemma_scan_parts_nonempty(inside0, s, 0);
            assert forall|k: int| 0 <= k < text_parts@.len() implies (
            #[trigger] text_parts@[k])@.len() > 0 by {
                assert(views(text_parts@)[k] == text_parts@[k]@);
            }
            assert forall|k: int| 0 <= k < thinking_parts@.len() implies (
            #[trigger] thinking_parts@[k])@.len() > 0 by {
                assert(views(thinking_parts@)[k] == thinking_parts@[k]@);
            }
        }
        (text_parts, thinking_parts)
    }

    /// Ends the stream: the waiting tail is delivered in the current mode (as thinking inside a
    /// think block, as text outside), and the buffer returns to text mode with nothing waiting.
    pub fn flush(&mut self) -> (parts: (Vec<String>, Vec<String>))
        ensures
            final(self)@ == (false, Seq::<char>::empty()),
            views(parts.0@) == (if !old(self)@.0 { part(old(self)@.1) } else { Seq::empty() }),
            views(parts.1@) == (if old(self)@.0 { part(old(self)@.1) } else { Seq::empty() }),
            parts.0@.len() + parts.1@.len() <= 1,
            pending_ok(old(self)@.0, old(self)@.1) ==> forall|k: int|
                0 <= k < parts.0@.len() ==> {
                    &&& !old(self)@.0
                    &&& 0 < (#[trigger] parts.0@[k])@.len() < mode_tag(false).len()
                    &&& is_prefix(parts.0@[k]@, mode_tag(false))
                },
            pending_ok(old(self)@.0, old(self)@.1) ==> forall|k: int|
                0 <= k < parts.1@.len() ==> {
                    &&& old(self)@.0
                    &&& 0 < (#[trigger] parts.1@[k])@.len() < mode_tag(true).len()
                    &&& is_prefix(parts.1@[k]@, mode_tag(true))
                },
            pending_ok(final(self)@.0, final(self)@.1),
    {
        let mut text_parts: Vec<String> = Vec::new();
        let mut thinking_parts: Vec<String> = Vec::new();
        if self.pending.len() > 0 {
            let n = self.pending.len();
            let s = string_of_range(&self.pending, 0, n);
            assert(self.pending@.subrange(0, n as int) =~= self.pending@);
            if self.inside_think {
                thinking_parts.push(s);
            } else {
                text_parts.push(s);
            }
        }
        assert(views(text_parts@) =~= (if !old(self)@.0 { part(old(self)@.1) } else { Seq::empty() }));
        assert(views(thinking_parts@) =~= (if old(self)@.0 { part(old(self)@.1) } else { Seq::empty() }));
        self.pending = Vec::new();
        self.inside_think = false;
        proof {
            assert(mode_tag(false).subrange(0, 0) =~= Seq::<char>::empty());
            assert forall|k: int| 0 <= k < text_parts@.len() implies text_parts@[k]@ == views(
                text_parts@,
            )[k] by {}
            assert forall|k: int| 0 <= k < thinking_parts@.len() implies thinking_parts@[k]@
                == views(thinking_parts@)[k] by {}
        }
        (text_parts, thinking_parts)
    }
}

} // verus!
