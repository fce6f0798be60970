//! Navigation over a parse tree: each node (`LuaPair`) records the span of
//! the input it matched, the rule that matched it and its children, and a
//! `LuaPairs` is a double-ended cursor over a run of sibling nodes.
use std::rc::Rc;
use vstd::prelude::*;
use vstd::string::StringSliceAdditionalSpecFns;
use crate::text::{bytes_of, byte_slice, char_range_ok, is_char_range, lemma_bytes_decode};

verus! {

/// One node of a parse tree.
#[derive(Debug, PartialEq)]
pub struct LuaPair {
    input: Rc<String>,
    start: usize,
    stop: usize,
    rule: Rc<String>,
    node_tag: Option<Rc<String>>,
    line: usize,
    col: usize,
    pairs: Option<LuaPairs>,
}

/// A cursor over the sibling nodes `pairs[idx .. rdx]`; `rem` counts them.
#[derive(Debug, PartialEq)]
pub struct LuaPairs {
    input: Rc<String>,
    start: usize,
    stop: usize,
    idx: usize,
    rdx: usize,
    rem: usize,
    pairs: Rc<Vec<LuaPair>>,
}

impl LuaPair {
    pub closed spec fn spec_input(self) -> Seq<char> {
        self.input@
    }

    pub closed spec fn spec_start(self) -> usize {
        self.start
    }

    pub closed spec fn spec_stop(self) -> usize {
        self.stop
    }

    pub closed spec fn spec_rule(self) -> Seq<char> {
        self.rule@
    }

    pub closed spec fn spec_node_tag(self) -> Option<Seq<char>> {
        match self.node_tag {
            Some(t) => Some(t@),
            None => None,
        }
    }

    pub closed spec fn spec_line(self) -> usize {
        self.line
    }

    pub closed spec fn spec_col(self) -> usize {
        self.col
    }

    /// The children of the node, if it has any.
    pub closed spec fn spec_children(self) -> Option<LuaPairs> {
        self.pairs
    }

    /// The node's span is a range of whole characters of its input.
    pub open spec fn span_valid(self) -> bool {
        is_char_range(bytes_of(self.spec_input()), self.spec_start() as int, self.spec_stop() as int)
    }

    /// The node and all of its descendants hold consistent cursors.
    pub closed spec fn wf(self) -> bool
        decreases self, 0int,
    {
        match self.pairs {
            Some(c) => c.wf(),
            None => true,
        }
    }

    /// Every node's span is a range of whole characters of its own input.
    #[verifier::type_invariant]
    closed spec fn span_inv(self) -> bool {
        is_char_range(bytes_of(self.input@), self.start as int, self.stop as int)
    }

    /// The node and all of its descendants span whole characters of `inp`.
    pub closed spec fn spans_in(self, inp: Seq<char>) -> bool
        decreases self, 0int,
    {
        &&& is_char_range(bytes_of(inp), self.start as int, self.stop as int)
        &&& match self.pairs {
            Some(c) => c.spans_in(inp),
            None => true,
        }
    }
}

impl LuaPairs {
    pub closed spec fn spec_input(self) -> Seq<char> {
        self.input@
    }

    pub closed spec fn spec_start(self) -> usize {
        self.start
    }

    pub closed spec fn spec_stop(self) -> usize {
        self.stop
    }

    pub closed spec fn spec_idx(self) -> usize {
        self.idx
    }

    pub closed spec fn spec_rdx(self) -> usize {
        self.rdx
    }

    pub closed spec fn spec_rem(self) -> usize {
        self.rem
    }

    /// Every node the cursor was built over, consumed or not.
    pub closed spec fn spec_all(self) -> Seq<LuaPair> {
        self.pairs@
    }

    /// The cursor's bounds are consistent and every node it holds is well formed.
    pub closed spec fn wf(self) -> bool
        decreases self, 1int,
    {
        &&& self.idx <= self.rdx <= self.pairs@.len()
        &&& self.rem == self.rdx - self.idx
        &&& forall|i: int| 0 <= i < self.pairs@.len() ==> (#[trigger] self.pairs@[i]).wf()
    }

    /// Every node the cursor was built over, and all their descendants, span
    /// whole characters of `inp`.
    pub closed spec fn spans_in(self, inp: Seq<char>) -> bool
        decreases self, 1int,
    {
        forall|i: int| 0 <= i < self.pairs@.len() ==> (#[trigger] self.pairs@[i]).spans_in(inp)
    }

    /// The nodes the cursor has not yet handed out, front first.
    pub open spec fn view(self) -> Seq<LuaPair> {
        self.spec_all().subrange(self.spec_idx() as int, self.spec_rdx() as int)
    }

    /// The span covered by the whole run is a range of whole characters of the input.
    pub open spec fn span_valid(self) -> bool {
        is_char_range(bytes_of(self.spec_input()), self.spec_start() as int, self.spec_stop() as int)
    }
}

/// The nodes `all[lo .. hi]` and all their descendants, each node before its
/// children and the children before the node's next sibling.
pub closed spec fn preorder(all: Seq<LuaPair>, lo: int, hi: int) -> Seq<LuaPair>
    decreases all, 1int, hi - lo,
{
    if lo < 0 || hi > all.len() || lo >= hi {
        seq![]
    } else {
        seq![all[lo]] + preorder_children(all[lo]) + preorder(all, lo + 1, hi)
    }
}

/// The descendants of a node that its children cursor still holds, in pre-order.
pub closed spec fn preorder_children(p: LuaPair) -> Seq<LuaPair>
    decreases p, 0int, 0int,
{
    match p.pairs {
        Some(c) => preorder(c.pairs@, c.idx as int, c.rdx as int),
        None => seq![],
    }
}

impl LuaPairs {
    /// The nodes still held by the cursor and all their descendants, in pre-order.
    pub open spec fn flat(self) -> Seq<LuaPair> {
        preorder(self.spec_all(), self.spec_idx() as int, self.spec_rdx() as int)
    }
}

impl Clone for LuaPairs {
    fn clone(&self) -> (r: Self)
        ensures
            r == *self,
    {
        LuaPairs {
            input: Rc::clone(&self.input),
            start: self.start,
            stop: self.stop,
            idx: self.idx,
            rdx: self.rdx,
            rem: self.rem,
            pairs: Rc::clone(&self.pairs),
        }
    }
}

impl Clone for LuaPair {
    fn clone(&self) -> (r: Self)
        ensures
            r == *self,
    {
        proof {
            use_type_invariant(self);
        }
        let node_tag = match &self.node_tag {
            Some(t) => Some(Rc::clone(t)),
            None => None,
        };
        let pairs = match &self.pairs {
            Some(p) => Some(p.clone()),
            None => None,
        };
        LuaPair {
            input: Rc::clone(&self.input),
            start: self.start,
            stop: self.stop,
            rule: Rc::clone(&self.rule),
            node_tag,
            line: self.line,
            col: self.col,
            pairs,
        }
    }
}

/// The nodes of a stack of cursors, top cursor first, each flattened in pre-order.
pub closed spec fn stack_flat(st: Seq<LuaPairs>) -> Seq<LuaPair>
    decreases st.len(),
{
    if st.len() == 0 {
        seq![]
    } else {
        st.last().flat() + stack_flat(st.drop_last())
    }
}

impl LuaPair {
    /// Builds a node from the span it matched, its rule, its tag, its
    /// line and column, and the cursor over its children; a node whose
    /// children cursor is empty is recorded as having no children.
    pub fn new(
        input: &Rc<String>,
        start: usize,
        stop: usize,
        rule: String,
        node_tag: Option<String>,
        line: usize,
        col: usize,
        inner: LuaPairs,
    ) -> (r: Self)
        requires
            is_char_range(bytes_of(input@), start as int, stop as int),
        ensures
            r.spec_input() == input@,
            r.spec_start() == start,
            r.spec_stop() == stop,
            r.spec_rule() == rule@,
            r.spec_node_tag() == (match node_tag {
                Some(t) => Some(t@),
                None => None,
            }),
            r.spec_line() == line,
            r.spec_col() == col,
            r.spec_children() == (if inner.spec_rem() == 0 {
                None
            } else {
                Some(inner)
            }),
            inner.wf() ==> r.wf(),
    {
        let tag = match node_tag {
            Some(t) => Some(Rc::new(t)),
            None => None,
        };
        let mut pairs = None;
        if inner.len() != 0 {
            pairs = Some(inner);
        }
        LuaPair {
            input: Rc::clone(input),
            start,
            stop,
            rule: Rc::new(rule),
            node_tag: tag,
            line,
            col,
            pairs,
        }
    }

    /// Byte offset where the node's span starts; the span is always a range
    /// of whole characters of the node's input.
    pub fn lua_start(&self) -> (r: usize)
        ensures
            r == self.spec_start(),
            self.span_valid(),
    {
        proof {
            use_type_invariant(self);
        }
        self.start
    }

    /// Byte offset where the node's span ends; the span is always a range
    /// of whole characters of the node's input.
    pub fn lua_stop(&self) -> (r: usize)
        ensures
            r == self.spec_stop(),
            self.span_valid(),
    {
        proof {
            use_type_invariant(self);
        }
        self.stop
    }

    /// Name of the rule that matched the node.
    pub fn lua_as_rule(&self) -> (r: String)
        ensures
            r@ == self.spec_rule(),
    {
        (*self.rule).clone()
    }

    /// The text the node matched.
    pub fn lua_as_str(&self) -> (r: String)
        ensures
            self.span_valid(),
            bytes_of(r@) == bytes_of(self.spec_input()).subrange(
                self.spec_start() as int,
                self.spec_stop() as int,
            ),
    {
        proof {
            use_type_invariant(self);
        }
        byte_slice(self.input.as_str(), self.start, self.stop)
    }

    /// The tag attached to the node, if any.
    pub fn lua_as_node_tag(&self) -> (r: Option<String>)
        ensures
            match r {
                Some(t) => self.spec_node_tag() == Some(t@),
                None => self.spec_node_tag() is None,
            },
    {
        match &self.node_tag {
            Some(t) => Some((**t).clone()),
            None => None,
        }
    }

    /// The whole input the node was parsed from.
    pub fn lua_get_input(&self) -> (r: String)
        ensures
            r@ == self.spec_input(),
    {
        (*self.input).clone()
    }

    /// Line and column where the node starts.
    pub fn lua_line_col(&self) -> (r: (usize, usize))
        ensures
            r == (self.spec_line(), self.spec_col()),
    {
        (self.line, self.col)
    }

    /// A cursor over the node's children, if it has any.
    pub fn lua_pairs(&self) -> (r: Option<LuaPairs>)
        ensures
            r == self.spec_children(),
    {
        match &self.pairs {
            Some(p) => Some(p.clone()),
            None => None,
        }
    }
}

impl LuaPairs {
    /// Builds a cursor over the whole run `pairs`; the run's span goes from
    /// the start of its first node to the end of its last one.
    pub fn new(input: &Rc<String>, pairs: Vec<LuaPair>) -> (r: Self)
        ensures
            r.spec_input() == input@,
            r.spec_all() == pairs@,
            r.spec_idx() == 0,
            r.spec_rdx() == pairs.len(),
            r.spec_rem() == pairs.len(),
            r@ == pairs@,
            r.spec_start() == (if pairs.len() == 0 { 0 } else { pairs@[0].spec_start() }),
            r.spec_stop() == (if pairs.len() == 0 {
                0
            } else {
                pairs@[pairs.len() - 1].spec_stop()
            }),
            (forall|i: int| 0 <= i < pairs.len() ==> (#[trigger] pairs@[i]).wf()) ==> r.wf(),
    {
        let idx: usize = 0;
        let rdx: usize = pairs.len();
        let rem: usize = pairs.len();

        let mut start: usize = 0;
        let mut stop: usize = 0;

        if pairs.len() != 0 {
            start = pairs[0].start;
            stop = pairs[rdx - 1].stop;
        }

        let r = LuaPairs { input: Rc::clone(input), start, stop, idx, rdx, rem, pairs: Rc::new(pairs) };
        assert(r@ =~= r.spec_all());
        r
    }

    /// Number of nodes the cursor still holds.
    pub fn len(&self) -> (r: usize)
        ensures
            r == self.spec_rem(),
            self.wf() ==> r == self@.len(),
    {
        self.rem
    }

    /// The node the cursor would hand out next from the front, if any.
    pub fn peek(&self) -> (r: Option<LuaPair>)
        requires
            self.wf(),
        ensures
            r == (if self@.len() == 0 { None } else { Some(self@[0]) }),
    {
        if self.idx >= self.rdx {
            return None;
        }
        Some(self.pairs[self.idx].clone())
    }

    /// Hands out the front node and moves past it.
    pub fn next(&mut self) -> (r: Option<LuaPair>)
        requires
            old(self).wf(),
        ensures
            final(self).wf(),
            final(self).spec_input() == old(self).spec_input(),
            final(self).spec_all() == old(self).spec_all(),
            final(self).spec_start() == old(self).spec_start(),
            final(self).spec_stop() == old(self).spec_stop(),
            final(self).spec_rdx() == old(self).spec_rdx(),
            r == (if old(self)@.len() == 0 { None } else { Some(old(self)@[0]) }),
            final(self)@ == (if old(self)@.len() == 0 {
                old(self)@
            } else {
                old(self)@.drop_first()
            }),
            final(self).spec_idx() == (if old(self)@.len() == 0 {
                old(self).spec_idx() as int
            } else {
                old(self).spec_idx() + 1
            }),
    {
        let pair = match self.peek() {
            Some(p) => p,
            None => { return None; },
        };
        self.idx = self.idx + 1;
        self.rem = self.rem - 1;
        assert(self@ =~= old(self)@.drop_first());
        Some(pair)
    }

    /// Hands out the back node and moves before it.
    pub fn next_back(&mut self) -> (r: Option<LuaPair>)
        requires
            old(self).wf(),
        ensures
            final(self).wf(),
            final(self).spec_input() == old(self).spec_input(),
            final(self).spec_all() == old(self).spec_all(),
            final(self).spec_start() == old(self).spec_start(),
            final(self).spec_stop() == old(self).spec_stop(),
            final(self).spec_idx() == old(self).spec_idx(),
            r == (if old(self)@.len() == 0 { None } else { Some(old(self)@.last()) }),
            final(self)@ == (if old(self)@.len() == 0 {
                old(self)@
            } else {
                old(self)@.drop_last()
            }),
    {
        if self.rdx <= self.idx {
            return None;
        }
        self.rdx = self.rdx - 1;
        self.rem = self.rem - 1;
        assert(self@ =~= old(self)@.drop_last());
        Some(self.pairs[self.rdx].clone())
    }

    /// A cursor over the nodes this cursor still holds and all their
    /// descendants, in pre-order: each node comes before its children, and
    /// the children before the node's next sibling.
    pub fn flatten_into(&self) -> (r: LuaPairs)
        requires
            self.wf(),
        ensures
            r.wf(),
            r@ == self.flat(),
            r.spec_all() == self.flat(),
            r.spec_idx() == 0,
            r.spec_input() == self.spec_input(),
    {
        let mut out: Vec<LuaPair> = Vec::new();
        let mut stack: Vec<LuaPairs> = Vec::new();
        stack.push(self.clone());
        proof {
            assert(stack@.drop_last() =~= Seq::<LuaPairs>::empty());
            reveal_with_fuel(stack_flat, 2);
            assert(out@ + stack_flat(stack@) =~= self.flat());
        }

        while stack.len() != 0
            invariant
                out@ + stack_flat(stack@) == self.flat(),
                forall|i: int| 0 <= i < stack.len() ==> (#[trigger] stack@[i]).wf(),
                forall|i: int| 0 <= i < out.len() ==> (#[trigger] out@[i]).wf(),
            decreases stack_flat(stack@).len(), stack.len(),
        {
            let ghost before = stack@;
            let mut iter = stack.pop().unwrap();
            assert(before.drop_last() =~= stack@);
            let ghost top = iter;
            match iter.next() {
                Some(pair) => {
                    proof {
                        reveal_with_fuel(preorder, 2);
                        assert(top.flat() == seq![pair] + preorder_children(pair) + iter.flat());
                        assert(top.spec_all()[top.spec_idx() as int] == pair);
                    }
                    let ghost rest = stack@;
                    stack.push(iter);
                    out.push(pair.clone());
                    let ghost mid = stack@;
                    assert(mid.drop_last() =~= rest);
                    assert(stack_flat(mid) == iter.flat() + stack_flat(rest));
                    match &pair.pairs {
                        Some(p) => {
                            stack.push(p.clone());
                            proof {
                                assert(stack@.drop_last() =~= mid);
                                assert(stack_flat(stack@) == p.flat() + stack_flat(mid));
                                assert(p.flat() == preorder_children(pair));
                            }
                        },
                        None => {
                            assert(preorder_children(pair) =~= Seq::<LuaPair>::empty());
                        },
                    }
                    proof {
                        assert(stack_flat(stack@) =~= preorder_children(pair) + iter.flat()
                            + stack_flat(rest));
                        assert(out@ + stack_flat(stack@) =~= out@.drop_last() + (seq![pair]
                            + preorder_children(pair) + iter.flat()) + stack_flat(rest));
                    }
                },
                None => {
                    assert(top.flat() =~= Seq::<LuaPair>::empty());
                },
            }
        }
        assert(out@ =~= self.flat());
        Self::new(&self.input, out)
    }

    /// Where the whole run starts and ends in the input.
    pub fn span(&self) -> (r: (usize, usize))
        ensures
            r == (self.spec_start(), self.spec_stop()),
    {
        (self.start, self.stop)
    }

    /// The text spanned by the whole run.
    pub fn lua_as_str(&self) -> (r: String)
        requires
            self.span_valid(),
        ensures
            bytes_of(r@) == bytes_of(self.spec_input()).subrange(
                self.spec_start() as int,
                self.spec_stop() as int,
            ),
    {
        byte_slice(self.input.as_str(), self.start, self.stop)
    }

    /// The whole input the run was parsed from.
    pub fn lua_get_input(&self) -> (r: String)
        ensures
            r@ == self.spec_input(),
    {
        (*self.input).clone()
    }

    /// Whether the cursor has handed out all of its nodes.
    pub fn lua_is_empty(&self) -> (r: bool)
        ensures
            r == (self.spec_rem() == 0),
            self.wf() ==> (r == (self@.len() == 0)),
    {
        self.len() == 0
    }

    /// The node the cursor would hand out next from the front, if any.
    pub fn lua_peek(&mut self) -> (r: Option<LuaPair>)
        requires
            old(self).wf(),
        ensures
            *final(self) == *old(self),
            r == (if old(self)@.len() == 0 { None } else { Some(old(self)@[0]) }),
    {
        self.peek()
    }

    /// Hands out the front node and moves past it.
    pub fn lua_next(&mut self) -> (r: Option<LuaPair>)
        requires
            old(self).wf(),
        ensures
            final(self).wf(),
            r == (if old(self)@.len() == 0 { None } else { Some(old(self)@[0]) }),
            final(self)@ == (if old(self)@.len() == 0 {
                old(self)@
            } else {
                old(self)@.drop_first()
            }),
    {
        self.next()
    }

    /// Hands out the back node and moves before it.
    pub fn lua_next_back(&mut self) -> (r: Option<LuaPair>)
        requires
            old(self).wf(),
        ensures
            final(self).wf(),
            r == (if old(self)@.len() == 0 { None } else { Some(old(self)@.last()) }),
            final(self)@ == (if old(self)@.len() == 0 {
                old(self)@
            } else {
                old(self)@.drop_last()
            }),
    {
        self.next_back()
    }

    /// A cursor over the remaining nodes and all their descendants, in pre-order.
    pub fn lua_flatten(&self) -> (r: LuaPairs)
        requires
            self.wf(),
        ensures
            r.wf(),
            r@ == self.flat(),
    {
        self.flatten_into()
    }
}

/// The nodes `all[lo .. hi]`, when none of them has children, are their own
/// pre-order.
proof fn lemma_preorder_childless(all: Seq<LuaPair>, lo: int, hi: int)
    requires
        0 <= lo <= hi <= all.len(),
        forall|i: int| lo <= i < hi ==> (#[trigger] all[i]).spec_children() is None,
    ensures
        preorder(all, lo, hi) == all.subrange(lo, hi),
    decreases hi - lo,
{
    if lo < hi {
        lemma_preorder_childless(all, lo + 1, hi);
        assert(all[lo].spec_children() is None);
        assert(preorder_children(all[lo]) =~= Seq::<LuaPair>::empty());
        assert(all.subrange(lo, hi) =~= seq![all[lo]] + all.subrange(lo + 1, hi));
    } else {
        assert(all.subrange(lo, hi) =~= Seq::<LuaPair>::empty());
    }
}

/// Each node of `all[lo .. hi]` comes in its pre-order, in the same order:
/// the pre-order starts with the first node and is at least as long as the run.
proof fn lemma_preorder_keeps_run(all: Seq<LuaPair>, lo: int, hi: int)
    requires
        0 <= lo < hi <= all.len(),
    ensures
        preorder(all, lo, hi).len() >= hi - lo,
        preorder(all, lo, hi)[0] == all[lo],
    decreases hi - lo,
{
    if lo + 1 < hi {
        lemma_preorder_keeps_run(all, lo + 1, hi);
    } else {
        assert(preorder(all, lo + 1, hi) =~= Seq::<LuaPair>::empty());
    }
}

/// Flattening a run whose nodes have no children gives back the same run.
pub proof fn law_flatten_childless_run(ps: LuaPairs)
    requires
        ps.wf(),
        forall|i: int| 0 <= i < ps@.len() ==> (#[trigger] ps@[i]).spec_children() is None,
    ensures
        ps.flat() == ps@,
{
    assert forall|i: int| ps.spec_idx() <= i < ps.spec_rdx() implies (#[trigger] ps.spec_all()[i]).spec_children() is None by {
        assert(ps@[i - ps.spec_idx()] == ps.spec_all()[i]);
    }
    lemma_preorder_childless(ps.spec_all(), ps.spec_idx() as int, ps.spec_rdx() as int);
}

/// Flattening never drops a node of the run: the flattened run is at least
/// as long, and it starts with the run's first node.
pub proof fn law_flatten_keeps_front(ps: LuaPairs)
    requires
        ps.wf(),
        ps@.len() > 0,
    ensures
        ps.flat().len() >= ps@.len(),
        ps.flat()[0] == ps@[0],
{
    lemma_preorder_keeps_run(ps.spec_all(), ps.spec_idx() as int, ps.spec_rdx() as int);
}

/// What a sequence of calls on a cursor whose remaining nodes are `v` hands
/// out and leaves: each call is `lua_next` (`true`) or `lua_next_back`
/// (`false`), with the effect their contracts state.
pub open spec fn run_calls(v: Seq<LuaPair>, calls: Seq<bool>) -> (Seq<LuaPair>, Seq<Option<LuaPair>>)
    decreases calls.len(),
{
    if calls.len() == 0 {
        (v, seq![])
    } else {
        let (rest, outs) = run_calls(v, calls.drop_last());
        if rest.len() == 0 {
            (rest, outs.push(None))
        } else if calls.last() {
            (rest.drop_first(), outs.push(Some(rest[0])))
        } else {
            (rest.drop_last(), outs.push(Some(rest.last())))
        }
    }
}

/// How many of `n` nodes a sequence of calls has handed out from the front
/// and from the back.
pub open spec fn handed_out(n: nat, calls: Seq<bool>) -> (nat, nat)
    decreases calls.len(),
{
    if calls.len() == 0 {
        (0, 0)
    } else {
        let (f, b) = handed_out(n, calls.drop_last());
        if f + b >= n {
            (f, b)
        } else if calls.last() {
            ((f + 1) as nat, b)
        } else {
            (f, (b + 1) as nat)
        }
    }
}

/// The node the `k`-th call of a sequence hands out, if any.
pub open spec fn call_result(v: Seq<LuaPair>, calls: Seq<bool>, k: int) -> Option<LuaPair> {
    let (f, b) = handed_out(v.len(), calls.take(k));
    if f + b >= v.len() {
        None
    } else if calls[k] {
        Some(v[f as int])
    } else {
        Some(v[v.len() - 1 - b])
    }
}

/// Over any sequence of `lua_next` and `lua_next_back` calls, the cursor
/// hands out its nodes from the front in order and from the back in reverse
/// order, never one node twice: the nodes left are those between the ones
/// handed out from each end, exactly as many calls as there are nodes give
/// a node, and every later call gives nothing.
pub proof fn law_cursor_hands_out_each_node_once(v: Seq<LuaPair>, calls: Seq<bool>)
    ensures
        ({
            let (f, b) = handed_out(v.len(), calls);
            let (rest, outs) = run_calls(v, calls);
            &&& f + b == (if calls.len() < v.len() { calls.len() } else { v.len() })
            &&& rest == v.subrange(f as int, v.len() - b)
            &&& outs.len() == calls.len()
            &&& forall|k: int| 0 <= k < calls.len() ==> #[trigger] outs[k] == call_result(v, calls, k)
        }),
    decreases calls.len(),
{
    if calls.len() == 0 {
        assert(v.subrange(0, v.len() as int) =~= v);
    } else {
        let c0 = calls.drop_last();
        law_cursor_hands_out_each_node_once(v, c0);
        let (f0, b0) = handed_out(v.len(), c0);
        let (rest0, outs0) = run_calls(v, c0);
        let (f, b) = handed_out(v.len(), calls);
        let (rest, outs) = run_calls(v, calls);
        let last = calls.len() - 1;
        assert(calls.take(last) =~= c0);
        if rest0.len() > 0 {
            assert(rest0[0] == v[f0 as int]);
            assert(rest0.last() == v[v.len() - 1 - b0]);
            if calls.last() {
                assert(rest =~= v.subrange(f as int, v.len() - b));
            } else {
                assert(rest =~= v.subrange(f as int, v.len() - b));
            }
        }
        assert forall|k: int| 0 <= k < calls.len() implies #[trigger] outs[k] == call_result(v, calls, k) by {
            if k < last {
                assert(calls.take(k) =~= c0.take(k));
                assert(outs[k] == outs0[k]);
                assert(outs0[k] == call_result(v, c0, k));
                assert(c0[k] == calls[k]);
            }
        }
    }
}

/// A token of a parse: where a node opens (`opens`) or closes, the rule of
/// the node and the offset in the input.
#[derive(Clone, Debug, PartialEq)]
pub struct RawToken {
    pub opens: bool,
    pub rule: String,
    pub pos: usize,
}

/// What a parse reports of a node besides its tokens: its tag, and the line
/// and column where it starts.
#[derive(Clone, Debug, PartialEq)]
pub struct PairInfo {
    pub tag: Option<String>,
    pub line: usize,
    pub col: usize,
}

pub open spec fn token_view(t: RawToken) -> (bool, Seq<char>, usize) {
    (t.opens, t.rule@, t.pos)
}

pub open spec fn tokens_view(v: Seq<RawToken>) -> Seq<(bool, Seq<char>, usize)> {
    v.map_values(|t: RawToken| token_view(t))
}

pub open spec fn info_view(i: PairInfo) -> (Option<Seq<char>>, usize, usize) {
    (
        match i.tag {
            Some(t) => Some(t@),
            None => None,
        },
        i.line,
        i.col,
    )
}

pub open spec fn infos_view(v: Seq<PairInfo>) -> Seq<(Option<Seq<char>>, usize, usize)> {
    v.map_values(|i: PairInfo| info_view(i))
}

/// The tag, line and column of a node.
pub open spec fn pair_info(p: LuaPair) -> (Option<Seq<char>>, usize, usize) {
    (p.spec_node_tag(), p.spec_line(), p.spec_col())
}

/// The tags, lines and columns of a list of nodes.
pub open spec fn pair_infos(s: Seq<LuaPair>) -> Seq<(Option<Seq<char>>, usize, usize)> {
    s.map_values(|p: LuaPair| pair_info(p))
}

/// The token that opens a node.
pub open spec fn open_token(p: LuaPair) -> (bool, Seq<char>, usize) {
    (true, p.spec_rule(), p.spec_start())
}

/// The token that closes a node.
pub open spec fn close_token(p: LuaPair) -> (bool, Seq<char>, usize) {
    (false, p.spec_rule(), p.spec_stop())
}

/// The tokens of the nodes `all[lo .. hi]`: each node's opening token,
/// the tokens of its children, then its closing token.
pub closed spec fn tokens_of(all: Seq<LuaPair>, lo: int, hi: int) -> Seq<(bool, Seq<char>, usize)>
    decreases all, 1int, hi - lo,
{
    if lo < 0 || hi > all.len() || lo >= hi {
        seq![]
    } else {
        seq![open_token(all[lo])] + children_tokens(all[lo]) + seq![close_token(all[lo])]
            + tokens_of(all, lo + 1, hi)
    }
}

/// The tokens of the children a node's cursor still holds.
pub closed spec fn children_tokens(p: LuaPair) -> Seq<(bool, Seq<char>, usize)>
    decreases p, 0int, 0int,
{
    match p.pairs {
        Some(c) => tokens_of(c.pairs@, c.idx as int, c.rdx as int),
        None => seq![],
    }
}

impl LuaPairs {
    /// The tokens of the nodes the cursor still holds.
    pub open spec fn tokens(self) -> Seq<(bool, Seq<char>, usize)> {
        tokens_of(self.spec_all(), self.spec_idx() as int, self.spec_rdx() as int)
    }
}

/// The run `all[lo .. hi]` of well formed nodes accounts for the tokens
/// `tv[i .. k]`, followed by the end of the tokens or a closing token, and
/// for the details `iv[j .. m]` of its nodes in pre-order.
pub open spec fn run_fits(
    all: Seq<LuaPair>,
    lo: int,
    hi: int,
    tv: Seq<(bool, Seq<char>, usize)>,
    i: int,
    k: int,
    iv: Seq<(Option<Seq<char>>, usize, usize)>,
    j: int,
    m: int,
) -> bool {
    &&& 0 <= lo <= hi <= all.len()
    &&& forall|q: int| lo <= q < hi ==> (#[trigger] all[q]).wf()
    &&& 0 <= i <= k <= tv.len()
    &&& (k == tv.len() || !tv[k].0)
    &&& tokens_of(all, lo, hi) == tv.subrange(i, k)
    &&& 0 <= j <= m <= iv.len()
    &&& pair_infos(preorder(all, lo, hi)) == iv.subrange(j, m)
}

/// What `preorder` and `preorder_children` are: a run's pre-order is empty
/// when the range is, and otherwise its first node, that node's
/// descendants, then the pre-order of the rest of the run; a node's
/// descendants are the pre-order of what its children cursor still holds.
pub proof fn lemma_preorder_unfold(all: Seq<LuaPair>, lo: int, hi: int, p: LuaPair)
    ensures
        preorder(all, lo, hi) == (if lo < 0 || hi > all.len() || lo >= hi {
            Seq::<LuaPair>::empty()
        } else {
            seq![all[lo]] + preorder_children(all[lo]) + preorder(all, lo + 1, hi)
        }),
        preorder_children(p) == (match p.spec_children() {
            Some(c) => preorder(c.spec_all(), c.spec_idx() as int, c.spec_rdx() as int),
            None => Seq::<LuaPair>::empty(),
        }),
{
}

/// What `tokens_of` and `children_tokens` are: a run's tokens are empty when
/// the range is, and otherwise its first node's opening token, the tokens of
/// that node's children, its closing token, then the tokens of the rest of
/// the run; a node's children's tokens are those of what its children cursor
/// still holds.
pub proof fn lemma_tokens_unfold(all: Seq<LuaPair>, lo: int, hi: int, p: LuaPair)
    ensures
        tokens_of(all, lo, hi) == (if lo < 0 || hi > all.len() || lo >= hi {
            Seq::<(bool, Seq<char>, usize)>::empty()
        } else {
            seq![open_token(all[lo])] + children_tokens(all[lo]) + seq![close_token(all[lo])] + tokens_of(
                all,
                lo + 1,
                hi,
            )
        }),
        children_tokens(p) == (match p.spec_children() {
            Some(c) => tokens_of(c.spec_all(), c.spec_idx() as int, c.spec_rdx() as int),
            None => Seq::<(bool, Seq<char>, usize)>::empty(),
        }),
{
}

/// Every node of the run `all[lo .. hi]`, and all their descendants, span
/// whole characters of `inp`.
pub open spec fn run_spans_in(all: Seq<LuaPair>, lo: int, hi: int, inp: Seq<char>) -> bool {
    forall|q: int| lo <= q < hi ==> (#[trigger] all[q]).spans_in(inp)
}

/// The first node of a run whose spans lie in `inp` spans whole characters
/// of it, and so do the rest of the run and the node's children.
proof fn lemma_spans_step(all: Seq<LuaPair>, lo: int, hi: int, inp: Seq<char>)
    requires
        run_spans_in(all, lo, hi, inp),
        lo < hi,
        all[lo].wf(),
    ensures
        is_char_range(bytes_of(inp), all[lo].spec_start() as int, all[lo].spec_stop() as int),
        run_spans_in(all, lo + 1, hi, inp),
        match all[lo].spec_children() {
            Some(c) => run_spans_in(c.spec_all(), c.spec_idx() as int, c.spec_rdx() as int, inp),
            None => true,
        },
{
    let p = all[lo];
    assert(p.spans_in(inp));
    match p.pairs {
        Some(c) => {
            assert(c.wf());
            assert(c.spans_in(inp));
            assert forall|q: int| c.idx <= q < c.rdx implies (#[trigger] c.pairs@[q]).spans_in(inp) by {}
        },
        None => {},
    }
}

/// Appending a node to a run appends its tokens.
proof fn lemma_tokens_push(a: Seq<LuaPair>, p: LuaPair, lo: int)
    requires
        0 <= lo <= a.len(),
    ensures
        tokens_of(a.push(p), lo, a.len() + 1int) == tokens_of(a, lo, a.len() as int) + (seq![open_token(p)]
            + children_tokens(p) + seq![close_token(p)]),
    decreases a.len() - lo,
{
    let b = a.push(p);
    if lo < a.len() {
        lemma_tokens_push(a, p, lo + 1);
        assert(b[lo] == a[lo]);
        assert(tokens_of(b, lo, a.len() + 1int) =~= seq![open_token(a[lo])] + children_tokens(a[lo])
            + seq![close_token(a[lo])] + tokens_of(b, lo + 1, a.len() + 1int));
    } else {
        assert(b[lo] == p);
        assert(tokens_of(b, lo + 1, a.len() + 1int) =~= Seq::<(bool, Seq<char>, usize)>::empty());
        assert(tokens_of(a, lo, a.len() as int) =~= Seq::<(bool, Seq<char>, usize)>::empty());
    }
}

/// Appending a node to a run appends it and its descendants to the pre-order.
proof fn lemma_preorder_push(a: Seq<LuaPair>, p: LuaPair, lo: int)
    requires
        0 <= lo <= a.len(),
    ensures
        preorder(a.push(p), lo, a.len() + 1int) == preorder(a, lo, a.len() as int) + (seq![p]
            + preorder_children(p)),
    decreases a.len() - lo,
{
    let b = a.push(p);
    if lo < a.len() {
        lemma_preorder_push(a, p, lo + 1);
        assert(b[lo] == a[lo]);
        assert(preorder(b, lo, a.len() + 1int) =~= seq![a[lo]] + preorder_children(a[lo]) + preorder(
            b,
            lo + 1,
            a.len() + 1int,
        ));
    } else {
        assert(b[lo] == p);
        assert(preorder(b, lo + 1, a.len() + 1int) =~= Seq::<LuaPair>::empty());
        assert(preorder(a, lo, a.len() as int) =~= Seq::<LuaPair>::empty());
    }
}

/// The tokens `tv[i + 1 .. k]` after a node's opening token at `i` are its
/// children's, when the run starting with the node fits `tv[i .. ]`; and
/// the run after the node fits what follows its closing token.
proof fn lemma_fit_step(
    all: Seq<LuaPair>,
    lo: int,
    hi: int,
    tv: Seq<(bool, Seq<char>, usize)>,
    i: int,
    k: int,
    iv: Seq<(Option<Seq<char>>, usize, usize)>,
    j: int,
    m: int,
)
    requires
        run_fits(all, lo, hi, tv, i, k, iv, j, m),
        i < tv.len(),
        tv[i].0,
    ensures
        lo < hi,
        tv[i] == open_token(all[lo]),
        j < iv.len(),
        iv[j] == pair_info(all[lo]),
        ({
            let p = all[lo];
            let ct = children_tokens(p);
            let ci = pair_infos(preorder_children(p));
            &&& i + 1 + ct.len() < k
            &&& tv[i + 1 + ct.len()] == close_token(p)
            &&& run_fits(all, lo + 1, hi, tv, i + 2 + ct.len(), k, iv, j + 1 + ci.len(), m)
            &&& match p.spec_children() {
                Some(c) => run_fits(
                    c.spec_all(),
                    c.spec_idx() as int,
                    c.spec_rdx() as int,
                    tv,
                    i + 1,
                    i + 1 + ct.len(),
                    iv,
                    j + 1,
                    j + 1 + ci.len(),
                ),
                None => ct.len() == 0 && ci.len() == 0,
            }
        }),
{
    if lo == hi {
        assert(tokens_of(all, lo, hi) =~= Seq::<(bool, Seq<char>, usize)>::empty());
        assert(i == k);
        assert(false);
    }
    let p = all[lo];
    let ct = children_tokens(p);
    let rest = tokens_of(all, lo + 1, hi);
    let pre = preorder(all, lo, hi);
    let ci = pair_infos(preorder_children(p));
    assert(tokens_of(all, lo, hi) == seq![open_token(p)] + ct + seq![close_token(p)] + rest);
    assert(tv.subrange(i, k) == seq![open_token(p)] + ct + seq![close_token(p)] + rest);
    assert(tv.subrange(i, k)[0] == tv[i]);
    assert(tv.subrange(i, k).len() == k - i);
    assert forall|x: int| 0 <= x < ct.len() implies tv[i + 1 + x] == ct[x] by {
        assert(tv.subrange(i, k)[1 + x] == tv[i + 1 + x]);
    }
    assert(tv.subrange(i, k)[1 + ct.len() as int] == tv[i + 1 + ct.len()]);
    assert(tv.subrange(i + 1, i + 1 + ct.len()) =~= ct);
    assert forall|x: int| 0 <= x < rest.len() implies tv[i + 2 + ct.len() + x] == rest[x] by {
        assert(tv.subrange(i, k)[2 + ct.len() + x] == tv[i + 2 + ct.len() + x]);
    }
    assert(tv.subrange(i + 2 + ct.len(), k) =~= rest);
    assert(pre == seq![p] + preorder_children(p) + preorder(all, lo + 1, hi));
    let ri = pair_infos(preorder(all, lo + 1, hi));
    assert(pair_infos(pre) =~= seq![pair_info(p)] + ci + ri);
    assert(iv.subrange(j, m) == seq![pair_info(p)] + ci + ri);
    assert(iv.subrange(j, m)[0] == iv[j]);
    assert forall|x: int| 0 <= x < ci.len() implies iv[j + 1 + x] == ci[x] by {
        assert(iv.subrange(j, m)[1 + x] == iv[j + 1 + x]);
    }
    assert(iv.subrange(j + 1, j + 1 + ci.len()) =~= ci);
    assert forall|x: int| 0 <= x < ri.len() implies iv[j + 1 + ci.len() + x] == ri[x] by {
        assert(iv.subrange(j, m)[1 + ci.len() + x] == iv[j + 1 + ci.len() + x]);
    }
    assert(iv.subrange(j + 1 + ci.len(), m) =~= ri);
    assert(p.wf());
    match p.pairs {
        Some(c) => {
            assert(c.wf());
            assert(ct == tokens_of(c.pairs@, c.idx as int, c.rdx as int));
            assert(preorder_children(p) == preorder(c.pairs@, c.idx as int, c.rdx as int));
        },
        None => {},
    }
}

/// A run that is not empty starts with the opening token of its first node.
proof fn lemma_fit_front(
    all: Seq<LuaPair>,
    lo: int,
    hi: int,
    tv: Seq<(bool, Seq<char>, usize)>,
    i: int,
    k: int,
    iv: Seq<(Option<Seq<char>>, usize, usize)>,
    j: int,
    m: int,
)
    requires
        run_fits(all, lo, hi, tv, i, k, iv, j, m),
        lo < hi,
    ensures
        i < k,
        tv[i] == open_token(all[lo]),
{
    let p = all[lo];
    assert(tokens_of(all, lo, hi) == seq![open_token(p)] + children_tokens(p) + seq![close_token(p)]
        + tokens_of(all, lo + 1, hi));
    assert(tv.subrange(i, k)[0] == tv[i]);
}

/// Appending a node whose tokens and details follow those of a run extends
/// the run's tokens and details by them.
proof fn lemma_run_extend(
    before: Seq<LuaPair>,
    node: LuaPair,
    tv: Seq<(bool, Seq<char>, usize)>,
    i0: int,
    i: int,
    i2: int,
    iv: Seq<(Option<Seq<char>>, usize, usize)>,
    j0: int,
    j: int,
    j2: int,
)
    requires
        0 <= i0 <= i <= i2 <= tv.len(),
        0 <= j0 <= j <= j2 <= iv.len(),
        tokens_of(before, 0, before.len() as int) == tv.subrange(i0, i),
        pair_infos(preorder(before, 0, before.len() as int)) == iv.subrange(j0, j),
        seq![open_token(node)] + children_tokens(node) + seq![close_token(node)] == tv.subrange(i, i2),
        pair_infos(seq![node] + preorder_children(node)) == iv.subrange(j, j2),
    ensures
        tokens_of(before.push(node), 0, before.len() + 1int) == tv.subrange(i0, i2),
        pair_infos(preorder(before.push(node), 0, before.len() + 1int)) == iv.subrange(j0, j2),
{
    lemma_tokens_push(before, node, 0);
    lemma_preorder_push(before, node, 0);
    assert(tv.subrange(i0, i2) =~= tv.subrange(i0, i) + tv.subrange(i, i2));
    assert(iv.subrange(j0, j2) =~= iv.subrange(j0, j) + iv.subrange(j, j2));
    assert(pair_infos(preorder(before, 0, before.len() as int) + (seq![node] + preorder_children(node)))
        =~= pair_infos(preorder(before, 0, before.len() as int)) + pair_infos(seq![node] + preorder_children(node)));
}

/// Builds the node whose opening token is at `i` and whose details are at
/// `j`: its children, then its closing token, which must name the same
/// rule. It gives the node and where its tokens and details end, and it
/// succeeds whenever the ghost run `call[clo .. chi]` fits the tokens from
/// `i + 1` up to a closing token at `ck` for the same rule.
fn build_node(
    input: &Rc<String>,
    toks: &Vec<RawToken>,
    infos: &Vec<PairInfo>,
    i: usize,
    j: usize,
    Ghost(call): Ghost<Seq<LuaPair>>,
    Ghost(clo): Ghost<int>,
    Ghost(chi): Ghost<int>,
    Ghost(ck): Ghost<int>,
    Ghost(cm): Ghost<int>,
) -> (r: Option<(LuaPair, usize, usize)>)
    requires
        i < toks.len(),
        toks@[i as int].opens,
        j <= infos.len(),
    ensures
        r matches Some((node, i2, j2)) ==> {
            &&& i < i2 <= toks.len()
            &&& j < j2 <= infos.len()
            &&& seq![open_token(node)] + children_tokens(node) + seq![close_token(node)]
                == tokens_view(toks@).subrange(i as int, i2 as int)
            &&& pair_infos(seq![node] + preorder_children(node)) == infos_view(infos@).subrange(j as int, j2 as int)
            &&& node.wf()
            &&& node.spec_input() == input@
        },
        ({
            &&& j < infos.len()
            &&& run_fits(call, clo, chi, tokens_view(toks@), i + 1, ck, infos_view(infos@), j + 1, cm)
            &&& run_spans_in(call, clo, chi, input@)
            &&& ck < toks.len()
            &&& toks@[ck].rule@ == toks@[i as int].rule@
            &&& is_char_range(bytes_of(input@), toks@[i as int].pos as int, toks@[ck].pos as int)
        }) ==> (r matches Some((_, i2, j2)) && i2 == ck + 1 && j2 == cm),
    decreases toks.len() - i, 0int,
{
    let ghost tv = tokens_view(toks@);
    let ghost iv = infos_view(infos@);
    assert(tv.len() == toks.len());
    assert(iv.len() == infos.len());
    if j >= infos.len() {
        return None;
    }
    let child = build_run(input, toks, infos, i + 1, j + 1, Ghost(call), Ghost(clo), Ghost(chi), Ghost(ck), Ghost(cm));
    let (children, i2, j2) = match child {
        Some(x) => x,
        None => {
            return None;
        },
    };
    if i2 == toks.len() {
        return None;
    }
    let same_rule = toks[i2].rule == toks[i].rule;
    if !same_rule {
        return None;
    }
    if !char_range_ok(input.as_str(), toks[i].pos, toks[i2].pos) {
        return None;
    }
    assert(tv[i as int] == token_view(toks@[i as int]));
    assert(tv[i2 as int] == token_view(toks@[i2 as int]));
    assert(iv[j as int] == info_view(infos@[j as int]));
    let tag = match &infos[j].tag {
        Some(t) => Some(t.clone()),
        None => None,
    };
    let ghost cv = children@;
    let inner = LuaPairs::new(input, children);
    let node = LuaPair::new(
        input,
        toks[i].pos,
        toks[i2].pos,
        toks[i].rule.clone(),
        tag,
        infos[j].line,
        infos[j].col,
        inner,
    );
    proof {
        assert(open_token(node) == tv[i as int]);
        assert(close_token(node) == tv[i2 as int]);
        assert(pair_info(node) == iv[j as int]);
        if cv.len() == 0 {
            assert(children_tokens(node) =~= Seq::<(bool, Seq<char>, usize)>::empty());
            assert(preorder_children(node) =~= Seq::<LuaPair>::empty());
            assert(tv.subrange(i + 1, i2 as int).len() == 0);
            assert(iv.subrange(j + 1, j2 as int).len() == 0);
        } else {
            assert(children_tokens(node) == tokens_of(cv, 0, cv.len() as int));
            assert(preorder_children(node) == preorder(cv, 0, cv.len() as int));
        }
        assert(children_tokens(node) =~= tv.subrange(i + 1, i2 as int));
        assert(pair_infos(preorder_children(node)) =~= iv.subrange(j + 1, j2 as int));
        assert(tv.subrange(i as int, i2 + 1) =~= seq![tv[i as int]] + tv.subrange(i + 1, i2 as int) + seq![tv[i2 as int]]);
        assert(iv.subrange(j as int, j2 as int) =~= seq![iv[j as int]] + iv.subrange(j + 1, j2 as int));
        assert(pair_infos(seq![node] + preorder_children(node)) =~= seq![pair_info(node)] + pair_infos(preorder_children(node)));
    }
    Some((node, i2 + 1, j2))
}

/// Builds the run of sibling nodes whose tokens start at `i0` and run up to
/// the end of the tokens or to the first closing token left unmatched, with
/// the details of its nodes starting at `j0`. It gives the nodes and where
/// it stopped in both lists, and it succeeds whenever the ghost run `wall[wlo
/// .. whi]` fits the tokens from `i0` up to `wk`.
fn build_run(
    input: &Rc<String>,
    toks: &Vec<RawToken>,
    infos: &Vec<PairInfo>,
    i0: usize,
    j0: usize,
    Ghost(wall): Ghost<Seq<LuaPair>>,
    Ghost(wlo0): Ghost<int>,
    Ghost(whi): Ghost<int>,
    Ghost(wk): Ghost<int>,
    Ghost(wm): Ghost<int>,
) -> (r: Option<(Vec<LuaPair>, usize, usize)>)
    requires
        i0 <= toks.len(),
        j0 <= infos.len(),
    ensures
        r matches Some((nodes, i2, j2)) ==> {
            &&& i0 <= i2 <= toks.len()
            &&& j0 <= j2 <= infos.len()
            &&& (i2 == toks.len() || !toks@[i2 as int].opens)
            &&& tokens_of(nodes@, 0, nodes@.len() as int) == tokens_view(toks@).subrange(i0 as int, i2 as int)
            &&& pair_infos(preorder(nodes@, 0, nodes@.len() as int)) == infos_view(infos@).subrange(j0 as int, j2 as int)
            &&& forall|q: int| 0 <= q < nodes@.len() ==> (#[trigger] nodes@[q]).wf() && nodes@[q].spec_input() == input@
        },
        run_fits(wall, wlo0, whi, tokens_view(toks@), i0 as int, wk, infos_view(infos@), j0 as int, wm)
            && run_spans_in(wall, wlo0, whi, input@) ==> (r matches Some((_, i2, j2)) && i2 == wk && j2 == wm),
    decreases toks.len() - i0, 1int,
{
    let ghost tv = tokens_view(toks@);
    let ghost iv = infos_view(infos@);
    let ghost fits = run_fits(wall, wlo0, whi, tv, i0 as int, wk, iv, j0 as int, wm) && run_spans_in(
        wall,
        wlo0,
        whi,
        input@,
    );
    let ghost mut wlo = wlo0;
    assert(tv.len() == toks.len());
    assert(iv.len() == infos.len());
    let mut nodes: Vec<LuaPair> = Vec::new();
    let mut i = i0;
    let mut j = j0;
    assert(tokens_of(nodes@, 0, 0) =~= Seq::<(bool, Seq<char>, usize)>::empty());
    assert(preorder(nodes@, 0, 0) =~= Seq::<LuaPair>::empty());
    assert(pair_infos(Seq::<LuaPair>::empty()) =~= Seq::<(Option<Seq<char>>, usize, usize)>::empty());
    while i < toks.len() && toks[i].opens
        invariant
            i0 <= i <= toks.len(),
            j0 <= j <= infos.len(),
            tv == tokens_view(toks@),
            iv == infos_view(infos@),
            tv.len() == toks.len(),
            iv.len() == infos.len(),
            tokens_of(nodes@, 0, nodes@.len() as int) == tv.subrange(i0 as int, i as int),
            pair_infos(preorder(nodes@, 0, nodes@.len() as int)) == iv.subrange(j0 as int, j as int),
            forall|q: int| 0 <= q < nodes@.len() ==> (#[trigger] nodes@[q]).wf() && nodes@[q].spec_input() == input@,
            fits == (run_fits(wall, wlo0, whi, tokens_view(toks@), i0 as int, wk, infos_view(infos@), j0 as int, wm)
                && run_spans_in(wall, wlo0, whi, input@)),
            fits ==> run_fits(wall, wlo, whi, tv, i as int, wk, iv, j as int, wm),
            fits ==> run_spans_in(wall, wlo, whi, input@),
        decreases toks.len() - i,
    {
        assert(tv[i as int] == token_view(toks@[i as int]));
        let ghost p = wall[wlo];
        let ghost ct = children_tokens(p);
        let ghost ci = pair_infos(preorder_children(p));
        let ghost (call, clo, chi) = match p.spec_children() {
            Some(c) => (c.spec_all(), c.spec_idx() as int, c.spec_rdx() as int),
            None => (Seq::<LuaPair>::empty(), 0int, 0int),
        };
        proof {
            if fits {
                lemma_fit_step(wall, wlo, whi, tv, i as int, wk, iv, j as int, wm);
                lemma_spans_step(wall, wlo, whi, input@);
                if p.spec_children() is None {
                    assert(tokens_of(call, 0, 0) =~= Seq::<(bool, Seq<char>, usize)>::empty());
                    assert(preorder(call, 0, 0) =~= Seq::<LuaPair>::empty());
                    assert(pair_infos(Seq::<LuaPair>::empty()) =~= Seq::<(Option<Seq<char>>, usize, usize)>::empty());
                    assert(tv.subrange(i + 1, i + 1) =~= Seq::<(bool, Seq<char>, usize)>::empty());
                    assert(iv.subrange(j + 1, j + 1) =~= Seq::<(Option<Seq<char>>, usize, usize)>::empty());
                }
                assert(tv[i + 1 + ct.len()] == token_view(toks@[i + 1 + ct.len()]));
                assert(toks@[i as int].pos == p.spec_start());
                assert(toks@[i + 1 + ct.len()].pos == p.spec_stop());
            }
        }
        let built = build_node(
            input,
            toks,
            infos,
            i,
            j,
            Ghost(call),
            Ghost(clo),
            Ghost(chi),
            Ghost(i + 1 + ct.len()),
            Ghost(j + 1 + ci.len()),
        );
        let (node, i2, j2) = match built {
            Some(x) => x,
            None => {
                return None;
            },
        };
        let ghost before = nodes@;
        nodes.push(node);
        proof {
            lemma_run_extend(before, node, tv, i0 as int, i as int, i2 as int, iv, j0 as int, j as int, j2 as int);
            assert(nodes@ == before.push(node));
            assert forall|q: int| 0 <= q < nodes@.len() implies (#[trigger] nodes@[q]).wf() && nodes@[q].spec_input() == input@ by {
                if q < before.len() {
                    assert(nodes@[q] == before[q]);
                }
            }
            if fits {
                wlo = wlo + 1;
            }
        }
        i = i2;
        j = j2;
    }
    proof {
        if fits {
            if wlo < whi {
                lemma_fit_front(wall, wlo, whi, tv, i as int, wk, iv, j as int, wm);
                assert(tv[i as int] == token_view(toks@[i as int]));
            } else {
                assert(tokens_of(wall, wlo, whi) =~= Seq::<(bool, Seq<char>, usize)>::empty());
                assert(preorder(wall, wlo, whi) =~= Seq::<LuaPair>::empty());
                assert(tv.subrange(i as int, wk).len() == 0);
                assert(pair_infos(preorder(wall, wlo, whi)).len() == 0);
                assert(iv.subrange(j as int, wm).len() == 0);
            }
        }
    }
    Some((nodes, i, j))
}

impl LuaPairs {
    /// A cursor over the run of trees that a parse's tokens and the details
    /// of its nodes (in pre-order) describe. It exists exactly when the tokens
    /// and details are those of some run of well formed nodes.
    pub fn from_tokens(input: &Rc<String>, toks: &Vec<RawToken>, infos: &Vec<PairInfo>) -> (r: Option<LuaPairs>)
        ensures
            r matches Some(ps) ==> {
                &&& ps.wf()
                &&& ps.spec_input() == input@
                &&& ps.spec_idx() == 0
                &&& ps.tokens() == tokens_view(toks@)
                &&& pair_infos(ps.flat()) == infos_view(infos@)
                &&& forall|q: int| 0 <= q < ps@.len() ==> (#[trigger] ps@[q]).spec_input() == input@
                &&& ps.spec_start() <= ps.spec_stop() ==> ps.span_valid()
            },
            (exists|all: Seq<LuaPair>, lo: int, hi: int|
                run_fits(all, lo, hi, tokens_view(toks@), 0, toks.len() as int, infos_view(infos@), 0, infos.len() as int)
                    && run_spans_in(all, lo, hi, input@)) ==> r is Some,
    {
        let ghost tv = tokens_view(toks@);
        let ghost iv = infos_view(infos@);
        let ghost fits = exists|all: Seq<LuaPair>, lo: int, hi: int|
            run_fits(all, lo, hi, tv, 0, toks.len() as int, iv, 0, infos.len() as int) && run_spans_in(
                all,
                lo,
                hi,
                input@,
            );
        let ghost w = if fits {
            choose|all: Seq<LuaPair>, lo: int, hi: int|
                run_fits(all, lo, hi, tv, 0, toks.len() as int, iv, 0, infos.len() as int) && run_spans_in(
                    all,
                    lo,
                    hi,
                    input@,
                )
        } else {
            (Seq::<LuaPair>::empty(), 0int, 0int)
        };
        let built = build_run(
            input,
            toks,
            infos,
            0,
            0,
            Ghost(w.0),
            Ghost(w.1),
            Ghost(w.2),
            Ghost(toks.len() as int),
            Ghost(infos.len() as int),
        );
        match built {
            Some((nodes, i2, j2)) => {
                if i2 == toks.len() && j2 == infos.len() {
                    let ghost nv = nodes@;
                    proof {
                        lemma_bytes_decode(input@);
                        vstd::utf8::is_char_boundary_start_end_of_seq(bytes_of(input@));
                    }
                    if nodes.len() > 0 {
                        let last = nodes.len() - 1;
                        let first_node = &nodes[0];
                        let last_node = &nodes[last];
                        proof {
                            use_type_invariant(first_node);
                            use_type_invariant(last_node);
                        }
                    }
                    let ps = LuaPairs::new(input, nodes);
                    proof {
                        assert(tv.subrange(0, toks.len() as int) =~= tv);
                        assert(iv.subrange(0, infos.len() as int) =~= iv);
                        assert(ps.spec_all() == nv);
                        assert(ps@ == nv);
                    }
                    Some(ps)
                } else {
                    None
                }
            },
            None => None,
        }
    }
}

/// The tokens and node details of any well formed run whose nodes all span
/// whole characters of its input describe that run, so
/// `LuaPairs::from_tokens` accepts them: a parse tree can always be rebuilt
/// from its own tokens.
pub proof fn law_run_fits_own_tokens(ps: LuaPairs)
    requires
        ps.wf(),
        ps.spans_in(ps.spec_input()),
    ensures
        run_spans_in(ps.spec_all(), ps.spec_idx() as int, ps.spec_rdx() as int, ps.spec_input()),
        run_fits(
            ps.spec_all(),
            ps.spec_idx() as int,
            ps.spec_rdx() as int,
            ps.tokens(),
            0,
            ps.tokens().len() as int,
            pair_infos(ps.flat()),
            0,
            pair_infos(ps.flat()).len() as int,
        ),
{
    assert(ps.tokens().subrange(0, ps.tokens().len() as int) =~= ps.tokens());
    assert(pair_infos(ps.flat()).subrange(0, pair_infos(ps.flat()).len() as int) =~= pair_infos(ps.flat()));
}

} // verus!
