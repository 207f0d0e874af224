//! Graph primitives: node identities, the three-state dirty-propagation
//! marking, and the ordered, deduplicated edge collections that signals,
//! memos and effects keep.
//!
//! Every graph participant has a stable integer identity inside its
//! [`crate::runtime::Runtime`]. Two type-erased handles exist: a *source*
//! handle ([`SourceId`]) names a node that others can depend on (a signal
//! or a memo), and a *subscriber* handle ([`SubscriberId`]) names a node
//! that depends on sources (a memo or an effect). Handles are compared by
//! identity, never by value equality of the node they name.

use vstd::prelude::*;

verus! {

/// Staleness marking of a subscriber node.
///
/// `Check` distinguishes "a source of a source fired, possibly without
/// actually changing value" from `Dirty`, "definitely stale": a node in
/// `Check` must re-verify by consulting its sources instead of assuming
/// it has to recompute.
#[derive(Copy, Clone, Debug, PartialEq, Eq, Structural)]
pub enum DirtyState {
    /// Up to date.
    Clean,
    /// A transitive dependency might have changed; re-verify before use.
    Check,
    /// Definitely stale; must recompute before use.
    Dirty,
}

/// Identity of a node that others can depend on: a signal or a memo.
#[derive(Copy, Clone, Debug, PartialEq, Eq, Structural)]
pub enum SourceId {
    /// A signal, by its index in the runtime.
    Signal(usize),
    /// A memo, by its index in the runtime.
    Memo(usize),
}

/// Identity of a node that depends on sources: a memo or an effect.
#[derive(Copy, Clone, Debug, PartialEq, Eq, Structural)]
pub enum SubscriberId {
    /// A memo, by its index in the runtime.
    Memo(usize),
    /// An effect, by its index in the runtime.
    Effect(usize),
}

/// Inserts a subscriber into a subscriber set, keeping insertion order
/// and deduplicating on insert.
pub fn insert_sub(v: &mut Vec<SubscriberId>, x: SubscriberId)
    ensures
        old(v)@.contains(x) ==> final(v)@ == old(v)@,
        !old(v)@.contains(x) ==> final(v)@ == old(v)@.push(x),
        final(v)@.contains(x),
        forall|y: SubscriberId| #[trigger] final(v)@.contains(y) <==> (old(v)@.contains(y) || y == x),
        old(v)@.no_duplicates() ==> final(v)@.no_duplicates(),
{
    let n = v.len();
    let mut i: usize = 0;
    while i < n
        invariant
            i <= n,
            n == v.len(),
            forall|j: int| 0 <= j < i ==> v@[j] != x,
        decreases n - i,
    {
        if v[i] == x {
            proof {
                assert(v@.contains(x));
            }
            return;
        }
        i = i + 1;
    }
    proof {
        assert(!v@.contains(x));
    }
    v.push(x);
    proof {
        lemma_push_contains(old(v)@, x);
    }
}

/// After pushing an element, a sequence contains exactly what it did
/// before, plus that element.
proof fn lemma_push_contains<T>(s: Seq<T>, x: T)
    ensures
        s.push(x).contains(x),
        forall|y: T| #[trigger] s.push(x).contains(y) <==> (s.contains(y) || y == x),
{
    assert(s.push(x)[s.len() as int] == x);
    assert forall|y: T| #[trigger] s.push(x).contains(y) <==> (s.contains(y) || y == x) by {
        if s.push(x).contains(y) {
            let j = choose|j: int| 0 <= j < s.push(x).len() && s.push(x)[j] == y;
            if j < s.len() {
                assert(s[j] == y);
            }
        }
        if s.contains(y) {
            let j = choose|j: int| 0 <= j < s.len() && s[j] == y;
            assert(s.push(x)[j] == y);
        }
        if y == x {
            assert(s.push(x)[s.len() as int] == y);
        }
    }
}

/// Removes a subscriber from a subscriber set by identity; removing one
/// that is not present is a no-op.
pub fn remove_sub(v: &mut Vec<SubscriberId>, x: SubscriberId)
    requires
        old(v)@.no_duplicates(),
    ensures
        final(v)@.no_duplicates(),
        !final(v)@.contains(x),
        forall|y: SubscriberId| y != x ==> (#[trigger] final(v)@.contains(y) <==> old(v)@.contains(y)),
        final(v)@.len() <= old(v)@.len(),
        !old(v)@.contains(x) ==> final(v)@ == old(v)@,
        old(v)@.contains(x) ==> exists|i: int|
            0 <= i < old(v)@.len() && old(v)@[i] == x
            && final(v)@ == #[trigger] old(v)@.remove(i),
{
    let n = v.len();
    let mut i: usize = 0;
    while i < n
        invariant
            i <= n,
            n == v.len(),
            v@ == old(v)@,
            v@.no_duplicates(),
            forall|j: int| 0 <= j < i ==> v@[j] != x,
        decreases n - i,
    {
        if v[i] == x {
            v.remove(i);
            proof {
                let s0 = old(v)@;
                let s1 = v@;
                assert(s1 == s0.remove(i as int));
                assert(s0[i as int] == x && s0.contains(x));
                assert forall|y: SubscriberId| y != x implies
                    (#[trigger] s1.contains(y) <==> s0.contains(y)) by {
                    if s0.contains(y) {
                        let j = choose|j: int| 0 <= j < s0.len() && s0[j] == y;
                        if j < i {
                            assert(s1[j] == y);
                        } else {
                            assert(s1[j - 1] == y);
                        }
                        assert(s1.contains(y));
                    }
                    if s1.contains(y) {
                        let j = choose|j: int| 0 <= j < s1.len() && s1[j] == y;
                        if j < i {
                            assert(s0[j] == y);
                        } else {
                            assert(s0[j + 1] == y);
                        }
                        assert(s0.contains(y));
                    }
                }
                assert(!s1.contains(x)) by {
                    if s1.contains(x) {
                        let j = choose|j: int| 0 <= j < s1.len() && s1[j] == x;
                        if j < i {
                            assert(s0[j] == x);
                            assert(s0[i as int] == x);
                            assert(s0[j] != s0[i as int]);
                        } else {
                            assert(s0[j + 1] == x);
                            assert(s0[i as int] == x);
                            assert(s0[j + 1] != s0[i as int]);
                        }
                    }
                }
                assert(s1.no_duplicates()) by {
                    assert forall|p: int, q: int|
                        0 <= p < s1.len() && 0 <= q < s1.len() && p != q implies
                        s1[p] != s1[q] by {
                        let p0: int = if p < i { p } else { p + 1 };
                        let q0: int = if q < i { q } else { q + 1 };
                        assert(s1[p] == s0[p0]);
                        assert(s1[q] == s0[q0]);
                        assert(p0 != q0);
                        assert(s0[p0] != s0[q0]);
                    }
                }
            }
            return;
        }
        i = i + 1;
    }
    proof {
        assert(!v@.contains(x));
    }
}

/// Inserts a source into a subscriber's remembered source list, keeping
/// insertion order and deduplicating on insert. Sources are later checked
/// deterministically in this order.
pub fn insert_src(v: &mut Vec<SourceId>, x: SourceId)
    ensures
        old(v)@.contains(x) ==> final(v)@ == old(v)@,
        !old(v)@.contains(x) ==> final(v)@ == old(v)@.push(x),
        final(v)@.contains(x),
        forall|y: SourceId| #[trigger] final(v)@.contains(y) <==> (old(v)@.contains(y) || y == x),
        old(v)@.no_duplicates() ==> final(v)@.no_duplicates(),
{
    let n = v.len();
    let mut i: usize = 0;
    while i < n
        invariant
            i <= n,
            n == v.len(),
            forall|j: int| 0 <= j < i ==> v@[j] != x,
        decreases n - i,
    {
        if v[i] == x {
            proof {
                assert(v@.contains(x));
            }
            return;
        }
        i = i + 1;
    }
    proof {
        assert(!v@.contains(x));
    }
    v.push(x);
    proof {
        lemma_push_contains(old(v)@, x);
    }
}

/// Atomically drains a subscriber set: returns all current members, in
/// order, and leaves the set empty. Draining (rather than iterating in
/// place) forces subscribers to re-register on their next read, which is
/// what lets dependency sets change dynamically.
pub fn take_subs(v: &mut Vec<SubscriberId>) -> (r: Vec<SubscriberId>)
    ensures
        r@ == old(v)@,
        final(v)@ =~= Seq::<SubscriberId>::empty(),
{
    let n = v.len();
    let mut r: Vec<SubscriberId> = Vec::new();
    let mut i: usize = 0;
    while i < n
        invariant
            i <= n,
            n == v.len(),
            v@ == old(v)@,
            r@ == v@.take(i as int),
        decreases n - i,
    {
        r.push(v[i]);
        proof {
            assert(r@ =~= v@.take(i + 1 as int));
        }
        i = i + 1;
    }
    proof {
        assert(r@ =~= v@);
    }
    v.clear();
    r
}

/// Number of `Clean` entries in a sequence of dirty states. Dirty
/// propagation only ever moves nodes away from `Clean`, so this count is
/// a termination measure for the marking pass.
pub open spec fn count_clean(s: Seq<DirtyState>) -> nat
    decreases s.len(),
{
    if s.len() == 0 {
        0
    } else {
        count_clean(s.drop_last()) + if s.last() == DirtyState::Clean { 1nat } else { 0nat }
    }
}

/// Overwriting a `Clean` entry with anything else lowers the count of
/// `Clean` entries by exactly one.
pub proof fn lemma_count_clean_update(s: Seq<DirtyState>, i: int, v: DirtyState)
    requires
        0 <= i < s.len(),
        s[i] == DirtyState::Clean,
        v != DirtyState::Clean,
    ensures
        count_clean(s.update(i, v)) + 1 == count_clean(s),
    decreases s.len(),
{
    let t = s.update(i, v);
    if i == s.len() - 1 {
        assert(t.drop_last() =~= s.drop_last());
        assert(t.last() == v);
    } else {
        assert(t.drop_last() =~= s.drop_last().update(i, v));
        assert(t.last() == s.last());
        lemma_count_clean_update(s.drop_last(), i, v);
    }
}

} // verus!
