//! The value tree: one decoded value and its shrinking by shorter prefixes.
use vstd::prelude::*;

use crate::decode::{ArbInterop, DecodeError};

verus! {

/// The abstract state of a value tree.
pub ghost struct TreeState<A> {
    /// The whole buffer the tree was built from.
    pub bytes: Seq<u8>,
    /// The value exposed now.
    pub curr: A,
    /// The value before the last successful simplification, if it may still
    /// be restored.
    pub prev: Option<A>,
    /// The length of the prefix tried last: the next simplification tries
    /// one byte less.
    pub next: nat,
}

/// Whether `v` is what decoding a prefix of `bytes` no shorter than `from`
/// gives.
pub open spec fn decoded_from_prefix<A: ArbInterop>(bytes: Seq<u8>, from: nat, v: A) -> bool {
    exists|l: nat| from <= l <= bytes.len() && #[trigger] A::decoded(bytes.take(l as int)) == Ok::<
        A,
        DecodeError,
    >(v)
}

/// One call of `simplify` takes the tree from state `s` to state `t` and
/// returns `r`: at cursor 0 nothing changes; otherwise the cursor steps down by
/// one and the prefix of that length is decoded; where that succeeds the value
/// becomes current and the old current value is saved for undo.
pub open spec fn simplify_step<A: ArbInterop>(s: TreeState<A>, t: TreeState<A>, r: bool) -> bool {
    if s.next == 0 {
        !r && t == s
    } else {
        let n = (s.next - 1) as nat;
        match A::decoded(s.bytes.take(n as int)) {
            Ok(v) => r && t == TreeState { curr: v, prev: Some(s.curr), next: n, ..s },
            Err(_) => !r && t == TreeState { next: n, ..s },
        }
    }
}

/// One call of `complicate` takes the tree from state `s` to state `t` and
/// returns `r`: a saved value is restored and the saving cleared; without one
/// nothing changes.
pub open spec fn complicate_step<A: ArbInterop>(s: TreeState<A>, t: TreeState<A>, r: bool) -> bool {
    match s.prev {
        Some(p) => r && t == TreeState { curr: p, prev: None, ..s },
        None => !r && t == s,
    }
}

/// Along any run of `simplify` calls the cursor never grows, and once it is 0
/// every further call returns false.
pub proof fn lemma_cursor_monotone<A: ArbInterop>(states: Seq<TreeState<A>>, results: Seq<bool>)
    requires
        states.len() == results.len() + 1,
        forall|k: int|
            0 <= k < results.len() ==> simplify_step(
                #[trigger] states[k],
                states[k + 1],
                results[k],
            ),
    ensures
        forall|i: int, j: int| 0 <= i <= j < states.len() ==> states[j].next <= states[i].next,
        forall|i: int, j: int|
            0 <= i <= j < results.len() && states[i].next == 0 ==> !results[j],
    decreases results.len(),
{
    if results.len() > 0 {
        let n = results.len() - 1;
        let s2 = states.take(n + 1);
        let r2 = results.take(n);
        assert forall|k: int| 0 <= k < r2.len() implies simplify_step(
            #[trigger] s2[k],
            s2[k + 1],
            r2[k],
        ) by {
            assert(simplify_step(states[k], states[k + 1], results[k]));
        }
        lemma_cursor_monotone(s2, r2);
        assert(simplify_step(states[n], states[n + 1], results[n]));
        assert forall|i: int, j: int| 0 <= i <= j < states.len() implies states[j].next
            <= states[i].next by {
            if j == n + 1 && i < j {
                assert(s2[i] == states[i]);
                assert(s2[n] == states[n]);
            } else if j <= n {
                assert(s2[i] == states[i]);
                assert(s2[j] == states[j]);
            }
        }
        assert forall|i: int, j: int|
            0 <= i <= j < results.len() && states[i].next == 0 implies !results[j] by {
            if j == n {
                assert(states[n].next <= states[i].next);
            } else {
                assert(s2[i] == states[i]);
                assert(r2[j] == results[j]);
            }
        }
    }
}

/// One call on a tree: `simplify` where `shrink` holds, else `complicate`.
pub open spec fn tree_step<A: ArbInterop>(
    s: TreeState<A>,
    t: TreeState<A>,
    shrink: bool,
    r: bool,
) -> bool {
    if shrink {
        simplify_step(s, t, r)
    } else {
        complicate_step(s, t, r)
    }
}

/// How many of the calls `shrink` marks as `simplify`.
pub open spec fn simplify_calls(shrink: Seq<bool>) -> nat
    decreases shrink.len(),
{
    if shrink.len() == 0 {
        0
    } else {
        simplify_calls(shrink.drop_last()) + if shrink.last() {
            1nat
        } else {
            0nat
        }
    }
}

/// How many of the calls were a `simplify` that returned true.
pub open spec fn successful_simplifies(shrink: Seq<bool>, results: Seq<bool>) -> nat
    decreases shrink.len(),
{
    if shrink.len() == 0 || results.len() == 0 {
        0
    } else {
        successful_simplifies(shrink.drop_last(), results.drop_last()) + if shrink.last()
            && results.last() {
            1nat
        } else {
            0nat
        }
    }
}

/// Along any run of `simplify` and `complicate` calls, each `simplify` lowers
/// the cursor by one until it is 0 and `complicate` leaves it; so no more
/// simplifications succeed than the cursor held at the start, and after as
/// many `simplify` calls as that the cursor is 0.
pub proof fn lemma_shrink_bound<A: ArbInterop>(
    states: Seq<TreeState<A>>,
    shrink: Seq<bool>,
    results: Seq<bool>,
)
    requires
        states.len() == shrink.len() + 1,
        results.len() == shrink.len(),
        forall|k: int|
            0 <= k < shrink.len() ==> tree_step(
                #[trigger] states[k],
                states[k + 1],
                shrink[k],
                results[k],
            ),
    ensures
        states.last().next == if simplify_calls(shrink) >= states[0].next {
            0
        } else {
            states[0].next - simplify_calls(shrink)
        },
        successful_simplifies(shrink, results) + states.last().next <= states[0].next,
    decreases shrink.len(),
{
    if shrink.len() > 0 {
        let n = shrink.len() - 1;
        let s2 = states.drop_last();
        assert forall|k: int| 0 <= k < shrink.drop_last().len() implies tree_step(
            #[trigger] s2[k],
            s2[k + 1],
            shrink.drop_last()[k],
            results.drop_last()[k],
        ) by {
            assert(tree_step(states[k], states[k + 1], shrink[k], results[k]));
        }
        lemma_shrink_bound(s2, shrink.drop_last(), results.drop_last());
        assert(tree_step(states[n], states[n + 1], shrink[n], results[n]));
        assert(s2.last() == states[n]);
        assert(s2[0] == states[0]);
    }
}

/// After a successful `simplify`, one `complicate` succeeds and restores the
/// value from before it; a second one right after fails and changes nothing.
pub proof fn lemma_single_undo<A: ArbInterop>(
    before: TreeState<A>,
    simplified: TreeState<A>,
    undone: TreeState<A>,
    last: TreeState<A>,
    first_undo: bool,
    second_undo: bool,
)
    requires
        simplify_step(before, simplified, true),
        complicate_step(simplified, undone, first_undo),
        complicate_step(undone, last, second_undo),
    ensures
        first_undo,
        undone.curr == before.curr,
        !second_undo,
        last == undone,
{
}

/// Building two trees from the same bytes gives the same outcome, and the
/// same current value where it succeeds.
pub proof fn lemma_construct_deterministic<A: ArbInterop>(
    bytes: Seq<u8>,
    first: Result<ArbValueTree<A>, DecodeError>,
    second: Result<ArbValueTree<A>, DecodeError>,
)
    requires
        ArbValueTree::built(bytes, first),
        ArbValueTree::built(bytes, second),
    ensures
        first is Ok <==> second is Ok,
        first matches Ok(t1) ==> second matches Ok(t2) && t1@ == t2@ && t1@.curr == t2@.curr,
        first matches Err(e1) ==> second matches Err(e2) && e1 == e2,
{
}

/// A value produced by decoding a buffer, together with what is needed to
/// shrink it: the buffer, a cursor into it, and one step of undo.
#[derive(Debug)]
pub struct ArbValueTree<A> {
    bytes: Vec<u8>,
    curr: A,
    prev: Option<A>,
    next: usize,
}

impl<A: ArbInterop> View for ArbValueTree<A> {
    type V = TreeState<A>;

    closed spec fn view(&self) -> TreeState<A> {
        TreeState { bytes: self.bytes@, curr: self.curr, prev: self.prev, next: self.next as nat }
    }
}

impl<A: ArbInterop> ArbValueTree<A> {
    /// The tree's invariant: the cursor stays within the buffer, and the
    /// current and the saved value each come from decoding a prefix that has
    /// been tried.
    pub open spec fn wf(&self) -> bool {
        &&& self@.next <= self@.bytes.len()
        &&& decoded_from_prefix(self@.bytes, self@.next, self@.curr)
        &&& (self@.prev matches Some(p) ==> decoded_from_prefix(self@.bytes, self@.next, p))
    }

    /// The state of a tree just built from `bytes`, whose whole decoding gave `v`.
    pub open spec fn fresh(bytes: Seq<u8>, v: A) -> TreeState<A> {
        TreeState { bytes, curr: v, prev: None, next: bytes.len() }
    }

    /// Whether `r` is what building a tree from `bytes` gives: a fresh tree
    /// over the value that decoding all of `bytes` yields, or that decoding's
    /// error.
    pub open spec fn built(bytes: Seq<u8>, r: Result<Self, DecodeError>) -> bool {
        &&& (r is Ok <==> A::decoded(bytes) is Ok)
        &&& (r matches Ok(t) ==> t.wf() && t@ == Self::fresh(bytes, A::decoded(bytes)->Ok_0))
        &&& (r matches Err(e) ==> A::decoded(bytes) == Err::<A, DecodeError>(e))
    }

    /// Builds a tree from `bytes`, decoded in full; fails with the decoding's
    /// error.
    pub fn new(bytes: Vec<u8>) -> (r: Result<Self, DecodeError>)
        ensures
            Self::built(bytes@, r),
    {
        let next = bytes.len();
        let curr = match A::decode(bytes.as_slice()) {
            Ok(v) => v,
            Err(e) => {
                return Err(e);
            },
        };
        proof {
            assert(bytes@.take(next as int) =~= bytes@);
            assert(decoded_from_prefix(bytes@, next as nat, curr));
        }
        Ok(ArbValueTree { bytes, curr, prev: None, next })
    }

    /// An independent copy of the current value.
    pub fn current(&self) -> (r: A)
        ensures
            r == self@.curr,
    {
        self.curr.duplicate()
    }

    /// Tries a smaller value: decodes the buffer cut one byte shorter than
    /// the last try. Returns whether that gave a value.
    pub fn simplify(&mut self) -> (r: bool)
        requires
            old(self).wf(),
        ensures
            final(self).wf(),
            simplify_step(old(self)@, final(self)@, r),
    {
        if self.next == 0 {
            return false;
        }
        self.next = self.next - 1;
        let n = self.next;
        let simpler = match A::decode(&self.bytes.as_slice()[0..n]) {
            Ok(v) => v,
            Err(_) => {
                proof {
                    assert(self.bytes@.subrange(0, n as int) =~= self.bytes@.take(n as int));
                }
                return false;
            },
        };
        proof {
            assert(self.bytes@.subrange(0, n as int) =~= self.bytes@.take(n as int));
            assert(decoded_from_prefix(self.bytes@, n as nat, simpler));
        }
        let mut displaced = simpler;
        std::mem::swap(&mut self.curr, &mut displaced);
        self.prev = Some(displaced);
        true
    }

    /// Undoes the last successful simplification, once. Returns whether there
    /// was one to undo.
    pub fn complicate(&mut self) -> (r: bool)
        requires
            old(self).wf(),
        ensures
            final(self).wf(),
            complicate_step(old(self)@, final(self)@, r),
    {
        match self.prev.take() {
            Some(p) => {
                self.curr = p;
                true
            },
            None => false,
        }
    }
}

} // verus!
