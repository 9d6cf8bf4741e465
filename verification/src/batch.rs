//! Bounded-concurrency batching: a permit counter that caps how many units
//! of work may run at once, and a collector that returns one outcome per
//! submitted request, in submission order, whatever order they complete in.

use vstd::prelude::*;

use crate::errors::ThumbnailError;
use crate::thumbnail::GenerationOutcome;

verus! {

/// How many generation tasks a batch runs at once by default.
pub const DEFAULT_PERMITS: u32 = 4;

/// The concurrency gate of a batch: a unit of work must hold one of
/// `limit` permits while it runs, and gives it back when it completes,
/// whether it succeeded, failed or was cancelled.
#[derive(Debug, Clone, Copy, PartialEq, Eq, Structural)]
pub struct PermitCounter {
    pub active: u32,
    pub limit: u32,
}

impl PermitCounter {
    /// Never more permits out than the cap allows.
    pub open spec fn wf(&self) -> bool {
        self.active <= self.limit
    }

    pub fn new(limit: u32) -> (r: Self)
        ensures
            r.wf(),
            r.limit == limit,
            r.active == 0,
    {
        Self { active: 0, limit }
    }

    /// Hands out a permit exactly when one is free, so the number of
    /// simultaneously active units never passes the cap.
    pub fn try_acquire(&mut self) -> (r: bool)
        requires
            old(self).wf(),
        ensures
            final(self).wf(),
            final(self).limit == old(self).limit,
            r == (old(self).active < old(self).limit),
            final(self).active == if r {
                old(self).active + 1
            } else {
                old(self).active as int
            },
            *final(self) == apply_permit_ops(*old(self), seq![PermitOp::Acquire]),
    {
        proof {
            reveal_with_fuel(apply_permit_ops, 2);
            assert(seq![PermitOp::Acquire].drop_first() =~= Seq::<PermitOp>::empty());
        }
        if self.active < self.limit {
            self.active = self.active + 1;
            true
        } else {
            false
        }
    }

    /// Takes a permit back when a unit completes.
    pub fn release(&mut self)
        requires
            old(self).wf(),
            old(self).active > 0,
        ensures
            final(self).wf(),
            final(self).limit == old(self).limit,
            final(self).active == old(self).active - 1,
            *final(self) == apply_permit_ops(*old(self), seq![PermitOp::Release]),
    {
        proof {
            reveal_with_fuel(apply_permit_ops, 2);
            assert(seq![PermitOp::Release].drop_first() =~= Seq::<PermitOp>::empty());
        }
        self.active = self.active - 1;
    }
}

/// One permit operation, as a unit of work performs it: a permit is taken
/// before the work starts and given back when the work completes.
#[derive(Debug, Clone, Copy, PartialEq, Eq, Structural)]
pub enum PermitOp {
    Acquire,
    Release,
}

/// The gauge after the operations of `ops`, in order: an acquisition that
/// finds no free permit is refused and changes nothing, and a stray release
/// of nothing changes nothing.
pub open spec fn apply_permit_ops(c: PermitCounter, ops: Seq<PermitOp>) -> PermitCounter
    decreases ops.len(),
{
    if ops.len() == 0 {
        c
    } else {
        let next = match ops[0] {
            PermitOp::Acquire => if c.active < c.limit {
                PermitCounter { active: (c.active + 1) as u32, limit: c.limit }
            } else {
                c
            },
            PermitOp::Release => if c.active > 0 {
                PermitCounter { active: (c.active - 1) as u32, limit: c.limit }
            } else {
                c
            },
        };
        apply_permit_ops(next, ops.drop_first())
    }
}

/// However a batch interleaves acquisitions and releases, the number of
/// simultaneously held permits never passes the limit: the gauge stays
/// well-formed after every sequence of operations, and so after every
/// prefix of one, since `ops` here is arbitrary.
pub proof fn lemma_permits_never_exceed_limit(c: PermitCounter, ops: Seq<PermitOp>)
    requires
        c.wf(),
    ensures
        apply_permit_ops(c, ops).wf(),
        apply_permit_ops(c, ops).limit == c.limit,
    decreases ops.len(),
{
    if ops.len() > 0 {
        let next = match ops[0] {
            PermitOp::Acquire => if c.active < c.limit {
                PermitCounter { active: (c.active + 1) as u32, limit: c.limit }
            } else {
                c
            },
            PermitOp::Release => if c.active > 0 {
                PermitCounter { active: (c.active - 1) as u32, limit: c.limit }
            } else {
                c
            },
        };
        lemma_permits_never_exceed_limit(next, ops.drop_first());
    }
}

/// What a slot that never reported resolves to: a unit that vanished
/// (panicked or was aborted) counts as cancelled, and only for its own slot.
pub open spec fn resolved(slot: Option<GenerationOutcome>) -> GenerationOutcome {
    match slot {
        Some(o) => o,
        None => Err(ThumbnailError::TaskCancelled),
    }
}

/// Collects the outcomes of a batch: one slot per submitted request, filled
/// in whatever order the units complete, and read out in submission order.
#[derive(Debug)]
pub struct BatchCollector {
    slots: Vec<Option<GenerationOutcome>>,
}

impl BatchCollector {
    /// The slots, in submission order.
    pub closed spec fn spec_slots(&self) -> Seq<Option<GenerationOutcome>> {
        self.slots@
    }

    /// A collector for `n` requests, all still unreported.
    pub fn new(n: usize) -> (r: Self)
        ensures
            r.spec_slots().len() == n,
            forall|i: int| 0 <= i < n ==> r.spec_slots()[i] is None,
    {
        let mut slots: Vec<Option<GenerationOutcome>> = Vec::new();
        let mut k: usize = 0;
        while k < n
            invariant
                k <= n,
                slots@.len() == k,
                forall|i: int| 0 <= i < k ==> slots@[i] is None,
            decreases n - k,
        {
            slots.push(None);
            k = k + 1;
        }
        Self { slots }
    }

    /// Reports the outcome of the request submitted at `slot`.  Completion
    /// order is free; each slot reports at most once.
    pub fn record(&mut self, slot: usize, outcome: GenerationOutcome)
        requires
            slot < old(self).spec_slots().len(),
            old(self).spec_slots()[slot as int] is None,
        ensures
            final(self).spec_slots() == old(self).spec_slots().update(
                slot as int,
                Some(outcome),
            ),
    {
        self.slots.set(slot, Some(outcome));
    }

    /// The outcomes in submission order, one per request: what a slot
    /// reported, or `TaskCancelled` for a unit that never did.
    pub fn finalize(self) -> (r: Vec<GenerationOutcome>)
        ensures
            r@.len() == self.spec_slots().len(),
            forall|i: int| 0 <= i < r@.len() ==> r@[i] == resolved(self.spec_slots()[i]),
    {
        let ghost orig = self.slots@;
        let mut rest = self.slots;
        let mut out: Vec<GenerationOutcome> = Vec::new();
        while rest.len() > 0
            invariant
                out@.len() + rest@.len() == orig.len(),
                rest@ =~= orig.subrange(out@.len() as int, orig.len() as int),
                forall|i: int| 0 <= i < out@.len() ==> out@[i] == resolved(orig[i]),
            decreases rest@.len(),
        {
            let first = rest.remove(0);
            match first {
                Some(o) => out.push(o),
                None => out.push(Err(ThumbnailError::TaskCancelled)),
            }
            proof {
                assert(rest@ =~= orig.subrange(out@.len() as int, orig.len() as int));
            }
        }
        out
    }
}

/// Reports from two different units commute: the collected slots depend
/// only on which request got which outcome, never on the order in which
/// the units completed.
pub proof fn lemma_completion_order_irrelevant(
    slots: Seq<Option<GenerationOutcome>>,
    i: int,
    j: int,
    a: GenerationOutcome,
    b: GenerationOutcome,
)
    requires
        0 <= i < slots.len(),
        0 <= j < slots.len(),
        i != j,
    ensures
        slots.update(i, Some(a)).update(j, Some(b)) == slots.update(j, Some(b)).update(
            i,
            Some(a),
        ),
{
    assert(slots.update(i, Some(a)).update(j, Some(b)) =~= slots.update(j, Some(b)).update(
        i,
        Some(a),
    ));
}

} // verus!
