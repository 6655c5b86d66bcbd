//! The registry of outstanding cancellable operations.
//!
//! Every spawned operation (reveal, flag toggle, autoplay step) is recorded
//! here under a fresh token together with its abort handle and the set of
//! cells whose reveal counters it acquired.  Completion removes the entry;
//! a restart aborts every registered operation and clears the registry.

use vstd::prelude::*;
use crate::board::Point;

verus! {

/// Declares `futures_util::future::AbortHandle` so that registry entries
/// can carry the cancellation capability of the operation they track.  The
/// value is opaque to the proofs: it is only stored, handed back, or passed
/// to `abort`.
#[verifier::external_type_specification]
#[verifier::external_body]
pub struct ExAbortHandle(futures_util::future::AbortHandle);

/// Relies on `futures_util::future::AbortHandle::abort`: it flags the
/// associated task as aborted and wakes it.  Cancellation is a request, not
/// a guarantee — the task stops at its next suspension point — so nothing
/// further can be promised about it here.
pub assume_specification[ futures_util::future::AbortHandle::abort ](
    h: &futures_util::future::AbortHandle,
);

/// One outstanding operation: its registry token, the capability to cancel
/// it, and the cells whose reveal counters it holds.
pub struct PendingOperation {
    pub token: u64,
    pub cancel: futures_util::future::AbortHandle,
    pub acquired: Vec<Point>,
}

/// How often `p` occurs in `s`.
pub open spec fn occ(s: Seq<Point>, p: Point) -> nat
    decreases s.len(),
{
    if s.len() == 0 {
        0
    } else {
        (if s.first() == p {
            1nat
        } else {
            0nat
        }) + occ(s.drop_first(), p)
    }
}

/// How many of the operations in `s` hold the reveal counter of `p`,
/// counted with multiplicity.
pub open spec fn load(s: Seq<PendingOperation>, p: Point) -> nat
    decreases s.len(),
{
    if s.len() == 0 {
        0
    } else {
        occ(s.first().acquired@, p) + load(s.drop_first(), p)
    }
}

/// Tracks every outstanding cancellable operation by a unique token.
pub struct ActionRegistry {
    entries: Vec<PendingOperation>,
    next_token: u64,
}

impl ActionRegistry {
    pub closed spec fn entries_seq(&self) -> Seq<PendingOperation> {
        self.entries@
    }

    pub closed spec fn spec_next_token(&self) -> u64 {
        self.next_token
    }

    /// Tokens are pairwise distinct and below the generation counter, so a
    /// fresh token can never collide with a registered one.
    pub open spec fn wf(&self) -> bool {
        &&& forall|i: int, j: int|
            0 <= i < j < self.entries_seq().len() ==> (#[trigger] self.entries_seq()[i]).token != (
            #[trigger] self.entries_seq()[j]).token
        &&& forall|i: int|
            0 <= i < self.entries_seq().len() ==> (#[trigger] self.entries_seq()[i]).token
                < self.spec_next_token()
    }

    pub open spec fn spec_contains(&self, token: u64) -> bool {
        exists|i: int|
            0 <= i < self.entries_seq().len() && (#[trigger] self.entries_seq()[i]).token == token
    }

    /// The total hold all outstanding operations have on the reveal counter
    /// of `p`.
    pub open spec fn spec_load(&self, p: Point) -> nat {
        load(self.entries_seq(), p)
    }

    pub fn new() -> (r: ActionRegistry)
        ensures
            r.wf(),
            r.entries_seq().len() == 0,
            r.spec_next_token() == 0,
    {
        ActionRegistry { entries: Vec::new(), next_token: 0 }
    }

    pub fn len(&self) -> (r: usize)
        ensures
            r == self.entries_seq().len(),
    {
        self.entries.len()
    }

    /// Whether the operation registered under `token` is still outstanding.
    pub fn contains(&self, token: u64) -> (r: bool)
        ensures
            r == self.spec_contains(token),
    {
        let mut i: usize = 0;
        while i < self.entries.len()
            invariant
                i <= self.entries_seq().len(),
                forall|j: int| 0 <= j < i ==> (#[trigger] self.entries_seq()[j]).token != token,
            decreases self.entries_seq().len() - i,
        {
            if self.entries[i].token == token {
                return true;
            }
            i = i + 1;
        }
        false
    }

    /// Inserts the operation under a freshly generated token and returns
    /// that token.  The token is new: it was not registered before.
    pub fn register(&mut self, cancel: futures_util::future::AbortHandle, acquired: Vec<Point>) -> (
        token: u64)
        requires
            old(self).wf(),
            old(self).spec_next_token() < u64::MAX,
        ensures
            final(self).wf(),
            token == old(self).spec_next_token(),
            !old(self).spec_contains(token),
            final(self).spec_contains(token),
            final(self).entries_seq() == old(self).entries_seq().push(
                (PendingOperation { token: old(self).spec_next_token(), cancel, acquired }),
            ),
            final(self).spec_next_token() == old(self).spec_next_token() + 1,
    {
        let token = self.next_token;
        self.next_token = self.next_token + 1;
        self.entries.push(PendingOperation { token, cancel, acquired });
        proof {
            let s = self.entries_seq();
            assert(s[s.len() - 1].token == token);
            assert forall|i: int, j: int| 0 <= i < j < s.len() implies (#[trigger] s[i]).token
                != (#[trigger] s[j]).token by {
                if j < s.len() - 1 {
                    assert(s[i] == old(self).entries_seq()[i]);
                    assert(s[j] == old(self).entries_seq()[j]);
                } else {
                    assert(s[i] == old(self).entries_seq()[i]);
                }
            }
            assert forall|i: int| 0 <= i < s.len() implies (#[trigger] s[i]).token
                < self.spec_next_token() by {
                if i < s.len() - 1 {
                    assert(s[i] == old(self).entries_seq()[i]);
                }
            }
        }
        token
    }

    /// Removes the entry registered under `token` if it is still present;
    /// does nothing otherwise.  Idempotent, because a registry-wide cancel
    /// may race with an operation's own completion.
    pub fn complete(&mut self, token: u64) -> (removed: Option<PendingOperation>)
        requires
            old(self).wf(),
        ensures
            final(self).wf(),
            final(self).spec_next_token() == old(self).spec_next_token(),
            !final(self).spec_contains(token),
            !old(self).spec_contains(token) ==> removed is None && final(self).entries_seq()
                == old(self).entries_seq(),
            old(self).spec_contains(token) ==> (removed matches Some(op) && {
                let i = choose|i: int|
                    0 <= i < old(self).entries_seq().len()
                        && (#[trigger] old(self).entries_seq()[i]).token == token;
                op == old(self).entries_seq()[i]
                    && final(self).entries_seq() == old(self).entries_seq().remove(i)
            }),
    {
        let mut i: usize = 0;
        while i < self.entries.len()
            invariant
                self == old(self),
                old(self).wf(),
                i <= self.entries_seq().len(),
                forall|j: int| 0 <= j < i ==> (#[trigger] self.entries_seq()[j]).token != token,
            decreases self.entries_seq().len() - i,
        {
            if self.entries[i].token == token {
                let op = self.entries.remove(i);
                proof {
                    let prev = old(self).entries_seq();
                    let w = choose|w: int|
                        0 <= w < prev.len() && (#[trigger] prev[w]).token == token;
                    assert(w == i);
                    assert forall|a: int|
                        0 <= a < self.entries_seq().len() implies (#[trigger] self
                        .entries_seq()[a]).token != token by {
                        if a < i {
                            assert(self.entries_seq()[a] == prev[a]);
                        } else {
                            assert(self.entries_seq()[a] == prev[a + 1]);
                        }
                    }
                }
                return Some(op);
            }
            i = i + 1;
        }
        None
    }

    /// Asks every registered operation to stop, then clears the registry.
    /// Cancellation is best-effort: the signal is issued, not awaited.
    pub fn cancel_all(&mut self)
        requires
            old(self).wf(),
        ensures
            final(self).wf(),
            final(self).entries_seq().len() == 0,
            final(self).spec_next_token() == old(self).spec_next_token(),
    {
        let mut i: usize = 0;
        while i < self.entries.len()
            invariant
                self == old(self),
                i <= self.entries_seq().len(),
            decreases self.entries_seq().len() - i,
        {
            self.entries[i].cancel.abort();
            i = i + 1;
        }
        self.entries.clear();
    }
}

/// Removing one operation releases exactly its own hold on every counter:
/// the load of each point drops by that operation's occurrence count.
pub proof fn lemma_load_remove(s: Seq<PendingOperation>, i: int, p: Point)
    requires
        0 <= i < s.len(),
    ensures
        load(s, p) == load(s.remove(i), p) + occ(s[i].acquired@, p),
    decreases s.len(),
{
    if i == 0 {
        assert(s.remove(0) =~= s.drop_first());
    } else {
        lemma_load_remove(s.drop_first(), i - 1, p);
        assert(s.remove(i).drop_first() =~= s.drop_first().remove(i - 1));
        assert(s.remove(i).first() == s.first());
        assert(load(s.remove(i), p) == occ(s.first().acquired@, p) + load(
            s.drop_first().remove(i - 1),
            p,
        ));
    }
}

/// Registering one more operation adds exactly its own hold to every
/// counter.
pub proof fn lemma_load_push(s: Seq<PendingOperation>, op: PendingOperation, p: Point)
    ensures
        load(s.push(op), p) == load(s, p) + occ(op.acquired@, p),
    decreases s.len(),
{
    if s.len() == 0 {
        assert(s.push(op).first() == op);
        assert(s.push(op).drop_first() =~= Seq::<PendingOperation>::empty());
        assert(load(s.push(op), p) == occ(op.acquired@, p) + load(s.push(op).drop_first(), p));
    } else {
        lemma_load_push(s.drop_first(), op, p);
        assert(s.push(op).drop_first() =~= s.drop_first().push(op));
        assert(s.push(op).first() == s.first());
        assert(load(s.push(op), p) == occ(s.first().acquired@, p) + load(
            s.push(op).drop_first(),
            p,
        ));
        assert(load(s, p) == occ(s.first().acquired@, p) + load(s.drop_first(), p));
    }
}

/// In a sequence of pairwise distinct points each point occurs at most
/// once, and exactly once when it is present.
pub proof fn lemma_occ_no_dup(s: Seq<Point>, p: Point)
    requires
        s.no_duplicates(),
    ensures
        occ(s, p) == if s.contains(p) {
            1nat
        } else {
            0nat
        },
    decreases s.len(),
{
    if s.len() > 0 {
        assert(s.drop_first().no_duplicates());
        lemma_occ_no_dup(s.drop_first(), p);
        if s.first() == p {
            assert(!s.drop_first().contains(p)) by {
                if s.drop_first().contains(p) {
                    let j = choose|j: int|
                        0 <= j < s.drop_first().len() && s.drop_first()[j] == p;
                    assert(s[j + 1] == p);
                }
            }
            assert(s.contains(p)) by {
                assert(s[0] == p);
            }
        } else {
            if s.contains(p) {
                let j = choose|j: int| 0 <= j < s.len() && s[j] == p;
                assert(s.drop_first()[j - 1] == p);
            }
            if s.drop_first().contains(p) {
                let j = choose|j: int| 0 <= j < s.drop_first().len() && s.drop_first()[j] == p;
                assert(s[j + 1] == p);
            }
        }
    }
}

} // verus!
