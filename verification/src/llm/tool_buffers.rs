//! Buffers that assemble streamed tool calls, which arrive in fragments keyed by an index.
use vstd::prelude::*;
use crate::json::{json_of_text, parse_json_text};
use crate::models::plugin::ToolCall;
use crate::text::owned;
use std::collections::HashMap;
use vstd::std_specs::iter::IteratorSpec;

verus! {

broadcast use vstd::std_specs::hash::group_hash_axioms;

/// One tool call being assembled: its index, id, function name and argument text so far.
pub type SlotView = (usize, Seq<char>, Seq<char>, Seq<char>);

/// Slots are kept in strictly increasing order of index (so each index appears once).
pub open spec fn sorted_slots(v: Seq<SlotView>) -> bool {
    forall|i: int, j: int| 0 <= i < j < v.len() ==> v[i].0 < v[j].0
}

/// Where a slot with index `k` is or would be inserted: the number of slots before it.
pub open spec fn slot_position(v: Seq<SlotView>, k: usize) -> int
    decreases v.len(),
{
    if v.len() == 0 || v[0].0 >= k {
        0
    } else {
        1 + slot_position(v.drop_first(), k)
    }
}

/// The slot with index `k`, if any.
pub open spec fn slot_of(v: Seq<SlotView>, k: usize) -> Option<SlotView> {
    let p = slot_position(v, k);
    if p < v.len() && v[p].0 == k {
        Some(v[p])
    } else {
        None
    }
}

/// Puts `s` in the slot of its index: replacing the slot with that index, or inserting a new
/// one in order.
pub open spec fn put_slot(v: Seq<SlotView>, s: SlotView) -> Seq<SlotView> {
    let p = slot_position(v, s.0);
    if p < v.len() && v[p].0 == s.0 {
        v.update(p, s)
    } else {
        v.insert(p, s)
    }
}

/// A fragment of OpenAI's `delta.tool_calls`.
#[derive(Debug, Clone)]
pub struct ToolCallDelta {
    /// The fragment's `index` (0 when missing).
    pub index: usize,
    /// The fragment's `id`, when it is a string.
    pub id: Option<String>,
    /// The fragment's `function.name`, when it is a string.
    pub name: Option<String>,
    /// The fragment's `function.arguments`, when it is a string.
    pub arguments: Option<String>,
}

/// A value that replaces a field: non-empty text replaces it, anything else keeps it.
pub open spec fn replace_if_given(old: Seq<char>, new: Option<String>) -> Seq<char> {
    match new {
        Some(s) => if s@.len() > 0 {
            s@
        } else {
            old
        },
        None => old,
    }
}

/// Applies one OpenAI fragment: the slot of its index (a fresh empty one if there was none)
/// takes a non-empty id and name from it and appends its argument text.
pub open spec fn apply_delta(v: Seq<SlotView>, d: ToolCallDelta) -> Seq<SlotView> {
    let e = match slot_of(v, d.index) {
        Some(e) => e,
        None => (d.index, Seq::empty(), Seq::empty(), Seq::empty()),
    };
    let args = match d.arguments {
        Some(a) => e.3 + a@,
        None => e.3,
    };
    put_slot(v, (d.index, replace_if_given(e.1, d.id), replace_if_given(e.2, d.name), args))
}

/// Applies fragments in order.
pub open spec fn apply_deltas(v: Seq<SlotView>, ds: Seq<ToolCallDelta>) -> Seq<SlotView>
    decreases ds.len(),
{
    if ds.len() == 0 {
        v
    } else {
        apply_delta(apply_deltas(v, ds.drop_last()), ds.last())
    }
}

/// The tool call made from a slot: its id, name and parsed argument text.
pub open spec fn call_of_slot(s: SlotView, c: ToolCall) -> bool {
    &&& c.id@ == s.1
    &&& c.name@ == s.2
    &&& c.arguments == json_of_text(s.3)
    &&& c.context is None
}

proof fn lemma_position_bounds(v: Seq<SlotView>, k: usize)
    requires
        sorted_slots(v),
    ensures
        0 <= slot_position(v, k) <= v.len(),
        forall|i: int| 0 <= i < slot_position(v, k) ==> v[i].0 < k,
        forall|i: int| slot_position(v, k) <= i < v.len() ==> v[i].0 >= k,
    decreases v.len(),
{
    if v.len() == 0 || v[0].0 >= k {
    } else {
        let t = v.drop_first();
        assert(sorted_slots(t));
        lemma_position_bounds(t, k);
        assert forall|i: int| 0 <= i < slot_position(v, k) implies v[i].0 < k by {
            if i > 0 {
                assert(v[i] == t[i - 1]);
            }
        }
        assert forall|i: int| slot_position(v, k) <= i < v.len() implies v[i].0 >= k by {
            assert(v[i] == t[i - 1]);
        }
    }
}

/// The position is the one index where the ordering changes from `< k` to `>= k`.
proof fn lemma_position_is(v: Seq<SlotView>, k: usize, p: int)
    requires
        0 <= p <= v.len(),
        forall|i: int| 0 <= i < p ==> v[i].0 < k,
        p < v.len() ==> v[p].0 >= k,
    ensures
        slot_position(v, k) == p,
    decreases v.len(),
{
    if v.len() == 0 || v[0].0 >= k {
        if p > 0 {
            assert(v[0].0 < k);
        }
    } else {
        let t = v.drop_first();
        lemma_position_is(t, k, p - 1);
    }
}

/// Putting a slot keeps the slots in order, and changes only the slot of its index.
proof fn lemma_put_slot(v: Seq<SlotView>, s: SlotView)
    requires
        sorted_slots(v),
    ensures
        sorted_slots(put_slot(v, s)),
        slot_of(put_slot(v, s), s.0) == Some(s),
        forall|k: usize| k != s.0 ==> slot_of(put_slot(v, s), k) == slot_of(v, k),
{
    let p = slot_position(v, s.0);
    lemma_position_bounds(v, s.0);
    let w = put_slot(v, s);
    if p < v.len() && v[p].0 == s.0 {
        assert(sorted_slots(w));
        lemma_position_is(w, s.0, p);
        assert forall|k: usize| k != s.0 implies slot_of(w, k) == slot_of(v, k) by {
            lemma_position_bounds(v, k);
            let q = slot_position(v, k);
            lemma_position_is(w, k, q);
        }
    } else {
        assert(sorted_slots(w)) by {
            assert forall|i: int, j: int| 0 <= i < j < w.len() implies w[i].0 < w[j].0 by {
                if j < p {
                } else if i < p && j == p {
                } else if i < p && j > p {
                    assert(w[j] == v[j - 1]);
                } else if i == p {
                    assert(w[j] == v[j - 1]);
                } else {
                    assert(w[i] == v[i - 1]);
                    assert(w[j] == v[j - 1]);
                }
            }
        }
        lemma_position_is(w, s.0, p);
        assert forall|k: usize| k != s.0 implies slot_of(w, k) == slot_of(v, k) by {
            lemma_position_bounds(v, k);
            let q = slot_position(v, k);
            if k < s.0 {
                assert(q <= p) by {
                    if q > p {
                        assert(v[p].0 < k);
                    }
                }
                lemma_position_is(w, k, q);
            } else {
                assert(q >= p);
                assert forall|i: int| 0 <= i < q + 1 implies w[i].0 < k by {
                    if i > p {
                        assert(w[i] == v[i - 1]);
                    }
                }
                if q < v.len() {
                    assert(w[q + 1] == v[q]);
                }
                lemma_position_is(w, k, q + 1);
            }
        }
    }
}

/// The argument text of the slot with index `k` (empty when there is none).
pub open spec fn arguments_at(v: Seq<SlotView>, k: usize) -> Seq<char> {
    match slot_of(v, k) {
        Some(e) => e.3,
        None => Seq::empty(),
    }
}

/// The argument fragments of the fragments with index `k`, concatenated in order.
pub open spec fn fragments_for(ds: Seq<ToolCallDelta>, k: usize) -> Seq<char>
    decreases ds.len(),
{
    if ds.len() == 0 {
        Seq::empty()
    } else {
        let d = ds.last();
        let mine = if d.index == k {
            match d.arguments {
                Some(a) => a@,
                None => Seq::empty(),
            }
        } else {
            Seq::empty()
        };
        fragments_for(ds.drop_last(), k) + mine
    }
}

/// Accumulation law: after a stream of fragments, the argument text of each index is what it
/// held before followed by the argument fragments sent for that index, in the order sent;
/// fragments for other indexes do not touch it. The slots stay ordered.
pub proof fn lemma_deltas_accumulate(v: Seq<SlotView>, ds: Seq<ToolCallDelta>, k: usize)
    requires
        sorted_slots(v),
    ensures
        sorted_slots(apply_deltas(v, ds)),
        arguments_at(apply_deltas(v, ds), k) == arguments_at(v, k) + fragments_for(ds, k),
    decreases ds.len(),
{
    if ds.len() == 0 {
        assert(arguments_at(v, k) + Seq::<char>::empty() =~= arguments_at(v, k));
    } else {
        let prev = apply_deltas(v, ds.drop_last());
        lemma_deltas_accumulate(v, ds.drop_last(), k);
        let d = ds.last();
        let e = match slot_of(prev, d.index) {
            Some(e) => e,
            None => (d.index, Seq::<char>::empty(), Seq::<char>::empty(), Seq::<char>::empty()),
        };
        let args = match d.arguments {
            Some(a) => e.3 + a@,
            None => e.3,
        };
        lemma_put_slot(prev, (d.index, replace_if_given(e.1, d.id), replace_if_given(e.2, d.name), args));
        if d.index == k {
            assert(arguments_at(prev, k) == e.3);
            match d.arguments {
                Some(a) => {
                    assert(arguments_at(v, k) + fragments_for(ds, k) =~= arguments_at(v, k)
                        + fragments_for(ds.drop_last(), k) + a@);
                },
                None => {
                    assert(fragments_for(ds, k) =~= fragments_for(ds.drop_last(), k));
                },
            }
        } else {
            assert(fragments_for(ds, k) =~= fragments_for(ds.drop_last(), k));
        }
    }
}

/// A stored entry (id, name, argument text) as the slot of index `k`.
pub open spec fn entry_slot(k: usize, e: (String, String, String)) -> SlotView {
    (k, e.0@, e.1@, e.2@)
}

/// The entries of a map, keyed by index, are exactly the slots of `v`.
pub open spec fn holds_slots(m: Map<usize, (String, String, String)>, v: Seq<SlotView>) -> bool {
    forall|k: usize|
        #![trigger m.contains_key(k)]
        #![trigger slot_of(v, k)]
        slot_of(v, k) == if m.contains_key(k) {
            Some(entry_slot(k, m[k]))
        } else {
            None
        }
}

/// A sequence of indices in strictly increasing order.
pub open spec fn increasing(s: Seq<usize>) -> bool {
    forall|i: int, j: int| 0 <= i < j < s.len() ==> s[i] < s[j]
}

/// The indices of slots, in order.
pub open spec fn slot_indices(v: Seq<SlotView>) -> Seq<usize> {
    Seq::new(v.len(), |i: int| v[i].0)
}

/// In ordered slots, the slot at position `i` is the slot of its index.
proof fn lemma_slot_at(v: Seq<SlotView>, i: int)
    requires
        sorted_slots(v),
        0 <= i < v.len(),
    ensures
        slot_of(v, v[i].0) == Some(v[i]),
{
    lemma_position_is(v, v[i].0, i);
}

/// An index has a slot exactly when it occurs among the slots' indices.
proof fn lemma_slot_indices(v: Seq<SlotView>, k: usize)
    requires
        sorted_slots(v),
    ensures
        slot_indices(v).contains(k) <==> slot_of(v, k) is Some,
{
    lemma_position_bounds(v, k);
    if slot_of(v, k) is Some {
        assert(slot_indices(v)[slot_position(v, k)] == k);
    }
    if slot_indices(v).contains(k) {
        let i = choose|i: int| 0 <= i < slot_indices(v).len() && slot_indices(v)[i] == k;
        lemma_slot_at(v, i);
    }
}

/// Two increasing sequences with the same elements are equal.
proof fn lemma_increasing_unique(a: Seq<usize>, b: Seq<usize>)
    requires
        increasing(a),
        increasing(b),
        forall|x: usize| a.contains(x) <==> b.contains(x),
    ensures
        a == b,
    decreases a.len(),
{
    if a.len() == 0 {
        if b.len() > 0 {
            assert(b.contains(b[0]));
        }
        assert(a =~= b);
    } else if b.len() == 0 {
        assert(a.contains(a[0]));
    } else {
        assert(a.contains(a[0]));
        assert(b.contains(b[0]));
        let j = choose|j: int| 0 <= j < b.len() && b[j] == a[0];
        let i = choose|i: int| 0 <= i < a.len() && a[i] == b[0];
        assert(a[0] <= a[i]);
        assert(b[0] <= b[j]);
        let a2 = a.drop_first();
        let b2 = b.drop_first();
        assert forall|x: usize| a2.contains(x) implies b2.contains(x) by {
            let p = choose|p: int| 0 <= p < a2.len() && a2[p] == x;
            assert(a.contains(x) && a[p + 1] == x && x != a[0]);
            let q = choose|q: int| 0 <= q < b.len() && b[q] == x;
            assert(q != 0);
            assert(b2[q - 1] == x);
        }
        assert forall|x: usize| b2.contains(x) implies a2.contains(x) by {
            let p = choose|p: int| 0 <= p < b2.len() && b2[p] == x;
            assert(b.contains(x) && b[p + 1] == x && x != b[0]);
            let q = choose|q: int| 0 <= q < a.len() && a[q] == x;
            assert(q != 0);
            assert(a2[q - 1] == x);
        }
        lemma_increasing_unique(a2, b2);
        assert(a =~= b) by {
            assert forall|t: int| 0 <= t < a.len() implies a[t] == b[t] by {
                if t > 0 {
                    assert(a[t] == a2[t - 1]);
                    assert(b[t] == b2[t - 1]);
                }
            }
        }
    }
}

/// The keys of a map, in no particular order, each once.
fn keys_of(m: &HashMap<usize, (String, String, String)>) -> (ks: Vec<usize>)
    ensures
        ks@.to_set() == m@.dom(),
        ks@.no_duplicates(),
{
    let mut ks: Vec<usize> = Vec::new();
    for k in it: m.keys()
        invariant
            it.seq() == vstd::std_specs::hash::spec_keys_iter(m).remaining(),
            ks@ == it.seq().take(it.index()).unref(),
    {
        ks.push(*k);
        proof {
            assert(ks@ =~= it.seq().take(it.index() + 1).unref());
        }
    }
    assert(ks@ =~= vstd::std_specs::hash::spec_keys_iter(m).remaining().unref());
    ks
}

/// Sorts distinct indices into increasing order (insertion sort).
fn sort_indices(ks: &Vec<usize>) -> (r: Vec<usize>)
    requires
        ks@.no_duplicates(),
    ensures
        increasing(r@),
        forall|x: usize| r@.contains(x) <==> ks@.contains(x),
{
    let mut r: Vec<usize> = Vec::new();
    let mut i: usize = 0;
    while i < ks.len()
        invariant
            i <= ks.len(),
            ks@.no_duplicates(),
            increasing(r@),
            forall|x: usize| r@.contains(x) <==> ks@.take(i as int).contains(x),
        decreases ks.len() - i,
    {
        let k = ks[i];
        let mut p: usize = 0;
        while p < r.len() && r[p] < k
            invariant
                p <= r.len(),
                forall|j: int| 0 <= j < p ==> r@[j] < k,
            decreases r.len() - p,
        {
            p += 1;
        }
        let ghost old_r = r@;
        proof {
            assert(!old_r.contains(k)) by {
                if old_r.contains(k) {
                    let q = choose|q: int| 0 <= q < i && ks@.take(i as int)[q] == k;
                    assert(ks@[q] == ks@[i as int]);
                }
            }
            if p < old_r.len() {
                assert(old_r[p as int] != k);
            }
        }
        r.insert(p, k);
        proof {
            let before = ks@.take(i as int);
            let upto = ks@.take(i + 1);
            assert(upto =~= before.push(k));
            assert forall|x: usize| r@.contains(x) <==> upto.contains(x) by {
                if r@.contains(x) {
                    let q = choose|q: int| 0 <= q < r@.len() && r@[q] == x;
                    if q < p {
                        assert(old_r[q] == x && old_r.contains(x));
                    } else if q > p {
                        assert(old_r[q - 1] == x && old_r.contains(x));
                    }
                    if x != k {
                        let t = choose|t: int| 0 <= t < before.len() && before[t] == x;
                        assert(upto[t] == x);
                    } else {
                        assert(upto[before.len() as int] == x);
                    }
                }
                if upto.contains(x) {
                    let t = choose|t: int| 0 <= t < upto.len() && upto[t] == x;
                    if t < before.len() {
                        assert(before[t] == x);
                        assert(old_r.contains(x));
                        let q = choose|q: int| 0 <= q < old_r.len() && old_r[q] == x;
                        if q < p {
                            assert(r@[q] == x);
                        } else {
                            assert(r@[q + 1] == x);
                        }
                    } else {
                        assert(r@[p as int] == x);
                    }
                }
            }
            assert forall|a: int, b: int| 0 <= a < b < r@.len() implies r@[a] < r@[b] by {
                if b < p {
                } else if b == p {
                } else if a < p {
                    assert(r@[b] == old_r[b - 1]);
                    if a < p && b - 1 >= p {
                        assert(old_r[p as int] > k);
                    }
                } else if a == p {
                    assert(r@[b] == old_r[b - 1]);
                    assert(old_r[p as int] > k);
                } else {
                    assert(r@[a] == old_r[a - 1]);
                    assert(r@[b] == old_r[b - 1]);
                }
            }
        }
        i += 1;
    }
    proof {
        assert(ks@.take(ks.len() as int) =~= ks@);
    }
    r
}

/// The tool calls being assembled, stored by index as they arrive, with the ordered slots that
/// they stand for.
struct IndexedCalls {
    entries: HashMap<usize, (String, String, String)>,
    order: Ghost<Seq<SlotView>>,
}

impl IndexedCalls {
    spec fn wf(&self) -> bool {
        sorted_slots(self.order@) && holds_slots(self.entries@, self.order@)
    }

    fn new() -> (c: Self)
        ensures
            c.wf(),
            c.order@ == Seq::<SlotView>::empty(),
    {
        IndexedCalls { entries: HashMap::new(), order: Ghost(Seq::empty()) }
    }

    /// The entry of index `k`, if any.
    fn get(&self, k: usize) -> (r: Option<(String, String, String)>)
        requires
            self.wf(),
        ensures
            match r {
                Some(e) => slot_of(self.order@, k) == Some(entry_slot(k, e)),
                None => slot_of(self.order@, k) is None,
            },
    {
        match self.entries.get(&k) {
            Some(e) => Some((e.0.clone(), e.1.clone(), e.2.clone())),
            None => None,
        }
    }

    /// Stores `e` as the entry of index `k`.
    fn put(&mut self, k: usize, e: (String, String, String))
        requires
            old(self).wf(),
        ensures
            final(self).wf(),
            final(self).order@ == put_slot(old(self).order@, entry_slot(k, e)),
    {
        let ghost s = entry_slot(k, e);
        let ghost v = self.order@;
        proof {
            lemma_put_slot(v, s);
        }
        self.entries.insert(k, e);
        self.order = Ghost(put_slot(v, s));
        assert(holds_slots(self.entries@, self.order@)) by {
            assert forall|j: usize| #[trigger] slot_of(self.order@, j) == if self.entries@.contains_key(j) {
                Some(entry_slot(j, self.entries@[j]))
            } else {
                None
            } by {
                if j != k {
                    assert(slot_of(v, j) == slot_of(self.order@, j));
                }
            }
        }
    }

    /// Whether no entry is stored.
    fn is_empty(&self) -> (b: bool)
        requires
            self.wf(),
        ensures
            b == (self.order@.len() == 0),
    {
        let b = self.entries.is_empty();
        proof {
            let v = self.order@;
            if v.len() > 0 {
                lemma_slot_at(v, 0);
                assert(self.entries@.dom().contains(v[0].0));
            } else {
                assert(self.entries@.dom() =~= Set::empty()) by {
                    assert forall|j: usize| !self.entries@.dom().contains(j) by {
                        assert(slot_of(v, j) is None);
                    }
                }
            }
        }
        b
    }

    /// The stored entries as tool calls, in increasing order of index, with their argument
    /// text parsed.
    fn into_calls(self) -> (calls: Vec<ToolCall>)
        requires
            self.wf(),
        ensures
            calls.len() == self.order@.len(),
            forall|i: int| 0 <= i < self.order@.len() ==> call_of_slot(self.order@[i], #[trigger] calls@[i]),
    {
        let ghost v = self.order@;
        let ks = keys_of(&self.entries);
        let sorted = sort_indices(&ks);
        proof {
            assert forall|x: usize| sorted@.contains(x) <==> slot_indices(v).contains(x) by {
                lemma_slot_indices(v, x);
                assert(ks@.contains(x) <==> ks@.to_set().contains(x));
            }
            lemma_increasing_unique(sorted@, slot_indices(v));
        }
        let mut calls: Vec<ToolCall> = Vec::new();
        let mut i: usize = 0;
        while i < sorted.len()
            invariant
                i <= sorted.len(),
                sorted@ == slot_indices(v),
                v == self.order@,
                self.wf(),
                calls.len() == i,
                forall|j: int| 0 <= j < i ==> call_of_slot(v[j], #[trigger] calls@[j]),
            decreases sorted.len() - i,
        {
            let k = sorted[i];
            proof {
                lemma_slot_at(v, i as int);
            }
            match self.entries.get(&k) {
                Some(e) => {
                    let arguments = parse_json_text(e.2.as_str());
                    calls.push(ToolCall { id: e.0.clone(), name: e.1.clone(), arguments, context: None });
                },
                None => {
                    assert(false);
                },
            }
            i += 1;
        }
        calls
    }
}

/// Tool calls streamed in the OpenAI format, assembled by index.
pub struct OpenAIToolCallBuffer {
    calls: IndexedCalls,
}

impl View for OpenAIToolCallBuffer {
    /// The slots, in increasing order of index.
    type V = Seq<SlotView>;

    closed spec fn view(&self) -> Seq<SlotView> {
        self.calls.order@
    }
}

impl Default for OpenAIToolCallBuffer {
    /// An empty buffer.
    fn default() -> (b: Self)
        ensures
            b@ == Seq::<SlotView>::empty(),
            b.wf(),
    {
        OpenAIToolCallBuffer::new()
    }
}

impl OpenAIToolCallBuffer {
    /// The stored calls are the buffer's slots, and the slots are ordered by index.
    pub closed spec fn wf(&self) -> bool {
        self.calls.wf()
    }

    /// An empty buffer.
    pub fn new() -> (b: Self)
        ensures
            b@ == Seq::<SlotView>::empty(),
            b.wf(),
    {
        OpenAIToolCallBuffer { calls: IndexedCalls::new() }
    }

    /// Applies the fragments of one streamed `delta.tool_calls` array, in order.
    pub fn process_delta(&mut self, deltas: &[ToolCallDelta])
        requires
            old(self).wf(),
        ensures
            final(self).wf(),
            final(self)@ == apply_deltas(old(self)@, deltas@),
    {
        let mut i: usize = 0;
        while i < deltas.len()
            invariant
                i <= deltas.len(),
                self.wf(),
                self@ == apply_deltas(old(self)@, deltas@.subrange(0, i as int)),
            decreases deltas.len() - i,
        {
            let d = &deltas[i];
            let ghost before = self@;
            assert(deltas@.subrange(0, i + 1).drop_last() =~= deltas@.subrange(0, i as int));
            let (id0, name0, args0) = match self.calls.get(d.index) {
                Some(e) => e,
                None => (String::new(), String::new(), String::new()),
            };
            let id = match &d.id {
                Some(s) => if !s.as_str().is_empty() {
                    s.clone()
                } else {
                    id0
                },
                None => id0,
            };
            let name = match &d.name {
                Some(s) => if !s.as_str().is_empty() {
                    s.clone()
                } else {
                    name0
                },
                None => name0,
            };
            let mut args = args0;
            match &d.arguments {
                Some(a) => args.append(a.as_str()),
                None => {},
            }
            self.calls.put(d.index, (id, name, args));
            assert(self@ == apply_delta(before, deltas@[i as int]));
            i += 1;
        }
        assert(deltas@.subrange(0, deltas.len() as int) =~= deltas@);
    }

    /// Whether any tool call has been started.
    pub fn has_tool_calls(&self) -> (b: bool)
        requires
            self.wf(),
        ensures
            b == (self@.len() > 0),
    {
        !self.calls.is_empty()
    }

    /// The assembled tool calls, in increasing order of index, with their arguments parsed.
    pub fn into_tool_calls(self) -> (calls: Vec<ToolCall>)
        requires
            self.wf(),
        ensures
            calls.len() == self@.len(),
            forall|i: int| 0 <= i < self@.len() ==> call_of_slot(self@[i], #[trigger] calls@[i]),
    {
        self.calls.into_calls()
    }
}

/// Tool calls streamed in the Anthropic format: a `content_block_start` of type `tool_use`
/// opens a call at an index, `input_json_delta` fragments extend its input.
pub struct AnthropicToolCallBuffer {
    calls: IndexedCalls,
}

impl View for AnthropicToolCallBuffer {
    /// The slots, in increasing order of index.
    type V = Seq<SlotView>;

    closed spec fn view(&self) -> Seq<SlotView> {
        self.calls.order@
    }
}

/// Appends `partial` to the input of the call at `index`, if one was started.
pub open spec fn append_input(v: Seq<SlotView>, index: usize, partial: Seq<char>) -> Seq<SlotView> {
    match slot_of(v, index) {
        Some(e) => put_slot(v, (index, e.1, e.2, e.3 + partial)),
        None => v,
    }
}

impl Default for AnthropicToolCallBuffer {
    /// An empty buffer.
    fn default() -> (b: Self)
        ensures
            b@ == Seq::<SlotView>::empty(),
            b.wf(),
    {
        AnthropicToolCallBuffer::new()
    }
}

impl AnthropicToolCallBuffer {
    /// The stored calls are the buffer's slots, and the slots are ordered by index.
    pub closed spec fn wf(&self) -> bool {
        self.calls.wf()
    }

    /// An empty buffer.
    pub fn new() -> (b: Self)
        ensures
            b@ == Seq::<SlotView>::empty(),
            b.wf(),
    {
        AnthropicToolCallBuffer { calls: IndexedCalls::new() }
    }

    /// Starts the call at `index` with its id and name and no input, replacing any call that
    /// was there.
    pub fn process_block_start(&mut self, index: usize, id: &str, name: &str)
        requires
            old(self).wf(),
        ensures
            final(self).wf(),
            final(self)@ == put_slot(old(self)@, (index, id@, name@, Seq::empty())),
    {
        self.calls.put(index, (owned(id), owned(name), String::new()));
    }

    /// Appends a fragment of input JSON to the call at `index`; ignored when no call was started
    /// there.
    pub fn process_input_delta(&mut self, index: usize, partial_json: &str)
        requires
            old(self).wf(),
        ensures
            final(self).wf(),
            final(self)@ == append_input(old(self)@, index, partial_json@),
    {
        match self.calls.get(index) {
            Some((id, name, args)) => {
                let mut args = args;
                args.append(partial_json);
                self.calls.put(index, (id, name, args));
            },
            None => {},
        }
    }

    /// Whether any tool call has been started.
    pub fn has_tool_calls(&self) -> (b: bool)
        requires
            self.wf(),
        ensures
            b == (self@.len() > 0),
    {
        !self.calls.is_empty()
    }

    /// The assembled tool calls, in increasing order of index, with their input parsed.
    pub fn into_tool_calls(self) -> (calls: Vec<ToolCall>)
        requires
            self.wf(),
        ensures
            calls.len() == self@.len(),
            forall|i: int| 0 <= i < self@.len() ==> call_of_slot(self@[i], #[trigger] calls@[i]),
    {
        self.calls.into_calls()
    }
}

} // verus!
