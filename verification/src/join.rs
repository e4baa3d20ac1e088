//! Joining several member extractions into one: every member runs from the
//! start, each completion fills its own slot, the join completes only when
//! all slots are filled — in declared order, regardless of completion order
//! — and the first member failure fails the whole join at once, abandoning
//! the rest.

use vstd::prelude::*;

verus! {

/// One member extraction's answer to being polled.
pub enum ExtractPoll<T, E> {
    /// Not finished yet.
    Pending,
    /// Finished with this value.
    Ready(T),
    /// Failed with this error.
    Failed(E),
}

/// What one poll cycle of the join yields.
pub enum JoinStep<T, E> {
    /// Some member is still pending; poll again.
    NotReady,
    /// Every member finished: the values, in declared member order.
    Complete(Vec<T>),
    /// A member failed: its error, first failure first.
    Failed(E),
}

/// The first position whose slot is unfilled and whose poll reports a
/// failure, if any: the member whose error fails the join this cycle.
pub open spec fn spec_first_failure<T, E>(
    slots: Seq<Option<T>>,
    polls: Seq<ExtractPoll<T, E>>,
) -> Option<int>
    decreases polls.len(),
{
    if polls.len() == 0 || slots.len() == 0 {
        None
    } else if slots[0] is None && polls[0] is Failed {
        Some(0int)
    } else {
        match spec_first_failure(slots.drop_first(), polls.drop_first()) {
            Some(i) => Some(i + 1),
            None => None,
        }
    }
}

/// `spec_first_failure` names the first failing position, or `None` when no
/// unfilled slot's poll fails.
pub proof fn lemma_first_failure<T, E>(slots: Seq<Option<T>>, polls: Seq<ExtractPoll<T, E>>)
    requires
        slots.len() == polls.len(),
    ensures
        match spec_first_failure(slots, polls) {
            Some(i) => 0 <= i < polls.len() && slots[i] is None && polls[i] is Failed && (forall|
                j: int,
            |
                0 <= j < i ==> !(slots[j] is None && polls[j] is Failed)),
            None => forall|j: int|
                0 <= j < polls.len() ==> !(slots[j] is None && polls[j] is Failed),
        },
    decreases polls.len(),
{
    if polls.len() > 0 && !(slots[0] is None && polls[0] is Failed) {
        let ts = slots.drop_first();
        let tp = polls.drop_first();
        lemma_first_failure(ts, tp);
        assert(forall|j: int| 0 <= j < ts.len() ==> ts[j] == slots[j + 1]);
        assert(forall|j: int| 0 <= j < tp.len() ==> tp[j] == polls[j + 1]);
        match spec_first_failure(ts, tp) {
            Some(i) => {
                assert forall|j: int| 0 <= j < i + 1 implies !(slots[j] is None
                    && polls[j] is Failed) by {
                    if j > 0 {
                        assert(ts[j - 1] == slots[j] && tp[j - 1] == polls[j]);
                    }
                }
            },
            None => {
                assert forall|j: int| 0 <= j < polls.len() implies !(slots[j] is None
                    && polls[j] is Failed) by {
                    if j > 0 {
                        assert(ts[j - 1] == slots[j] && tp[j - 1] == polls[j]);
                    }
                }
            },
        }
    }
}

/// The slots after one cycle has processed positions below `upto`: an
/// unfilled slot whose poll is ready takes that value, all else stays.
pub open spec fn spec_slots_after<T, E>(
    slots: Seq<Option<T>>,
    polls: Seq<ExtractPoll<T, E>>,
    upto: int,
) -> Seq<Option<T>> {
    Seq::new(
        slots.len(),
        |i: int|
            if i < upto && slots[i] is None && polls[i] is Ready {
                Some(polls[i]->Ready_0)
            } else {
                slots[i]
            },
    )
}

/// Positional ordering of the join: each member's value sits in its own
/// slot.  A slot filled in an earlier cycle keeps its value, and an
/// unfilled slot takes exactly its own member's newly ready value — so the
/// completed tuple is in declared order no matter in which order the
/// members completed.
pub proof fn lemma_join_positional<T, E>(
    slots: Seq<Option<T>>,
    polls: Seq<ExtractPoll<T, E>>,
    i: int,
)
    requires
        0 <= i < slots.len(),
    ensures
        ({
            let after = spec_slots_after(slots, polls, slots.len() as int);
            &&& (slots[i] is Some ==> after[i] == slots[i])
            &&& (slots[i] is None && polls[i] is Ready ==> after[i] == Some(polls[i]->Ready_0))
            &&& (slots[i] is None && !(polls[i] is Ready) ==> after[i] is None)
        }),
{
}

/// The join of several member extractions: one slot per member, filled as
/// the members complete.
pub struct ExtractJoin<T> {
    slots: Vec<Option<T>>,
}

impl<T> View for ExtractJoin<T> {
    type V = Seq<Option<T>>;

    closed spec fn view(&self) -> Seq<Option<T>> {
        self.slots@
    }
}

impl<T> ExtractJoin<T> {
    /// A join over `n` members, none finished yet.
    pub fn new(n: usize) -> (r: ExtractJoin<T>)
        ensures
            r@.len() == n,
            forall|i: int| 0 <= i < n ==> r@[i] is None,
    {
        let mut slots: Vec<Option<T>> = Vec::new();
        for k in 0..n
            invariant
                slots@.len() == k,
                forall|i: int| 0 <= i < k ==> slots@[i] is None,
        {
            slots.push(None);
        }
        ExtractJoin { slots }
    }

    /// How many members the join waits on.
    pub fn len(&self) -> (r: usize)
        ensures
            r == self@.len(),
    {
        self.slots.len()
    }

    /// Run one poll cycle: `polls[i]` is what polling member `i`'s
    /// extraction returned this cycle (polled only if its slot is still
    /// unfilled).  Positions are processed in order; a ready member fills
    /// its slot; the first failure fails the whole join with that member's
    /// error, keeping what earlier members had already delivered and
    /// dropping the rest.  With no failure the join completes once every
    /// slot is filled, handing the values out in member order.
    #[verifier::loop_isolation(false)]
    pub fn poll_cycle<E>(&mut self, polls: Vec<ExtractPoll<T, E>>) -> (r: JoinStep<T, E>)
        requires
            polls@.len() == old(self)@.len(),
        ensures
            match spec_first_failure(old(self)@, polls@) {
                Some(k) => (r matches JoinStep::Failed(e) && polls@[k] == ExtractPoll::<T,
                    E,
                >::Failed(e)) && final(self)@ == spec_slots_after(old(self)@, polls@, k),
                None => {
                    let merged = spec_slots_after(old(self)@, polls@, old(self)@.len() as int);
                    if forall|j: int| 0 <= j < merged.len() ==> merged[j] is Some {
                        (r matches JoinStep::Complete(out) && out@ == Seq::new(
                            merged.len(),
                            |j: int| merged[j]->0,
                        )) && final(self)@.len() == 0
                    } else {
                        r is NotReady && final(self)@ == merged
                    }
                },
            },
    {
        proof {
            lemma_first_failure(self@, polls@);
        }
        let ghost slots0 = self@;
        let ghost gpolls = polls@;
        let mut polls = polls;
        let n = self.slots.len();
        let mut i: usize = 0;
        while i < n
            invariant
                0 <= i <= n,
                polls@ == gpolls.skip(i as int),
                self@ == spec_slots_after(slots0, gpolls, i as int),
                forall|j: int| 0 <= j < i ==> !(slots0[j] is None && gpolls[j] is Failed),
            decreases n - i,
        {
            proof {
                assert(gpolls.skip(i as int)[0] == gpolls[i as int]);
                assert(gpolls.skip(i as int).drop_first() =~= gpolls.skip(i as int + 1));
                assert(self@[i as int] == slots0[i as int]);
            }
            let p = polls.remove(0);
            if self.slots[i].is_none() {
                match p {
                    ExtractPoll::Ready(item) => {
                        self.slots.set(i, Some(item));
                    },
                    ExtractPoll::Pending => {},
                    ExtractPoll::Failed(e) => {
                        proof {
                            assert(spec_first_failure(slots0, gpolls) == Some(i as int));
                            assert(self@ =~= spec_slots_after(slots0, gpolls, i as int));
                        }
                        return JoinStep::Failed(e);
                    },
                }
            }
            i = i + 1;
            proof {
                assert(self@ =~= spec_slots_after(slots0, gpolls, i as int));
            }
        }
        proof {
            assert(spec_first_failure(slots0, gpolls) is None);
            assert(self@ =~= spec_slots_after(slots0, gpolls, n as int));
        }
        let ghost merged = spec_slots_after(slots0, gpolls, n as int);
        let mut filled = true;
        let mut k: usize = 0;
        while k < n
            invariant
                0 <= k <= n,
                self@ == merged,
                n == self@.len(),
                filled == (forall|j: int| 0 <= j < k ==> self@[j] is Some),
            decreases n - k,
        {
            if self.slots[k].is_none() {
                filled = false;
            }
            k = k + 1;
        }
        if !filled {
            return JoinStep::NotReady;
        }
        let mut out: Vec<T> = Vec::new();
        let mut taken: usize = 0;
        while taken < n
            invariant
                0 <= taken <= n,
                n == merged.len(),
                self@ =~= merged.skip(taken as int),
                forall|j: int| 0 <= j < merged.len() ==> merged[j] is Some,
                out@ =~= Seq::new(taken as int as nat, |j: int| merged[j]->0),
            decreases n - taken,
        {
            proof {
                assert(self@[0] == merged[taken as int]);
            }
            let v = self.slots.remove(0).unwrap();
            out.push(v);
            taken = taken + 1;
            proof {
                assert(self@ =~= merged.skip(taken as int));
                assert(out@ =~= Seq::new(taken as nat, |j: int| merged[j]->0));
            }
        }
        JoinStep::Complete(out)
    }
}

} // verus!
