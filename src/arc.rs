//! The counting protocol of a thread-safe shared pointer with weak handles.
//!
//! A shared allocation holds two counters: `strong`, the number of owning
//! handles, and `total`, the number of weak handles plus one for all owning
//! handles together. The total count doubles as a lock while an owning handle
//! checks whether it is the only reference: it then holds [`PROBING`].
//!
//! Every operation below is one atomic step on those counters, so any
//! interleaving of threads is a sequence of these steps.
use vstd::prelude::*;

verus! {

/// Value of the total count while an exclusive-access probe is in progress.
pub const PROBING: usize = usize::MAX;

/// Largest count from which a clone may still increment; beyond it the
/// process aborts instead of risking a wrap-around.
pub const MAX_REFS: usize = usize::MAX / 2;

/// The counters of one allocation, and how often its payload was destroyed.
pub struct ArcState {
    pub strong: nat,
    pub total: nat,
    pub weak: nat,
    pub destroyed: nat,
}

/// One atomic step on the counters of an allocation.
pub enum ArcOp {
    CloneStrong,
    ReleaseStrong,
    Downgrade,
    CloneWeak,
    ReleaseWeak,
    Upgrade,
    ProbeBegin,
    ProbeEnd,
}

impl ArcState {
    /// The state of a freshly constructed allocation.
    pub open spec fn initial() -> ArcState {
        ArcState { strong: 1, total: 1, weak: 0, destroyed: 0 }
    }

    pub open spec fn probing(self) -> bool {
        self.total == PROBING as nat
    }

    /// What holds of the counters in every reachable state.
    pub open spec fn inv(self) -> bool {
        &&& self.strong <= usize::MAX
        &&& self.total <= usize::MAX
        &&& if self.probing() {
            self.weak == 0 && self.strong >= 1
        } else {
            self.total == self.weak + (if self.strong > 0 { 1nat } else { 0nat })
        }
        &&& self.destroyed == (if self.strong == 0 { 1nat } else { 0nat })
    }

    /// Whether a thread may take the step: it holds the handle that the step
    /// needs, and the step neither aborts nor panics.
    pub open spec fn enabled(self, op: ArcOp) -> bool {
        match op {
            ArcOp::CloneStrong => self.strong > 0 && self.strong <= MAX_REFS,
            ArcOp::ReleaseStrong => self.strong > 0 && !(self.probing() && self.strong == 1),
            ArcOp::Downgrade => self.strong > 0 && (self.probing() || self.total < usize::MAX - 1),
            ArcOp::CloneWeak => self.weak > 0 && self.total <= MAX_REFS,
            ArcOp::ReleaseWeak => self.weak > 0,
            ArcOp::Upgrade => self.weak > 0 && self.strong < usize::MAX,
            ArcOp::ProbeBegin => self.strong > 0,
            ArcOp::ProbeEnd => self.probing(),
        }
    }

    /// The state after the step.
    pub open spec fn next(self, op: ArcOp) -> ArcState {
        match op {
            ArcOp::CloneStrong => ArcState { strong: self.strong + 1, ..self },
            ArcOp::ReleaseStrong => if self.strong == 1 {
                ArcState {
                    strong: 0,
                    total: (self.total - 1) as nat,
                    destroyed: self.destroyed + 1,
                    ..self
                }
            } else {
                ArcState { strong: (self.strong - 1) as nat, ..self }
            },
            ArcOp::Downgrade => if self.probing() {
                self
            } else {
                ArcState { total: self.total + 1, weak: self.weak + 1, ..self }
            },
            ArcOp::CloneWeak => ArcState { total: self.total + 1, weak: self.weak + 1, ..self },
            ArcOp::ReleaseWeak => ArcState {
                total: (self.total - 1) as nat,
                weak: (self.weak - 1) as nat,
                ..self
            },
            ArcOp::Upgrade => if self.strong == 0 {
                self
            } else {
                ArcState { strong: self.strong + 1, ..self }
            },
            ArcOp::ProbeBegin => if self.total == 1 {
                ArcState { total: PROBING as nat, ..self }
            } else {
                self
            },
            ArcOp::ProbeEnd => ArcState { total: 1, ..self },
        }
    }

    /// Whether every step of `ops` is enabled when it is taken.
    pub open spec fn runs(self, ops: Seq<ArcOp>) -> bool
        decreases ops.len(),
    {
        ops.len() == 0 || (self.enabled(ops[0]) && self.next(ops[0]).runs(ops.drop_first()))
    }

    /// The state after taking the steps of `ops` in order.
    pub open spec fn run(self, ops: Seq<ArcOp>) -> ArcState
        decreases ops.len(),
    {
        if ops.len() == 0 {
            self
        } else {
            self.next(ops[0]).run(ops.drop_first())
        }
    }
}

/// Every enabled step keeps the invariant.
pub proof fn lemma_step_keeps_inv(s: ArcState, op: ArcOp)
    requires
        s.inv(),
        s.enabled(op),
    ensures
        s.next(op).inv(),
{
}

/// Any run of enabled steps keeps the invariant.
pub proof fn lemma_run_keeps_inv(s: ArcState, ops: Seq<ArcOp>)
    requires
        s.inv(),
        s.runs(ops),
    ensures
        s.run(ops).inv(),
    decreases ops.len(),
{
    if ops.len() > 0 {
        lemma_step_keeps_inv(s, ops[0]);
        lemma_run_keeps_inv(s.next(ops[0]), ops.drop_first());
    }
}


/// From construction on, whatever steps the threads interleave, the payload
/// has been destroyed at most once, and it has been destroyed exactly when no
/// owning handle is left.
pub proof fn lemma_payload_destroyed_once(ops: Seq<ArcOp>)
    requires
        ArcState::initial().runs(ops),
    ensures
        ArcState::initial().run(ops).destroyed <= 1,
        ArcState::initial().run(ops).destroyed == 1 <==> ArcState::initial().run(ops).strong == 0,
{
    lemma_run_keeps_inv(ArcState::initial(), ops);
}

/// The one step that destroys the payload is the release of the last owning
/// handle.
pub proof fn lemma_destroyed_by_last_release(s: ArcState, op: ArcOp)
    requires
        s.inv(),
        s.enabled(op),
        s.next(op).destroyed != s.destroyed,
    ensures
        op == ArcOp::ReleaseStrong,
        s.strong == 1,
        s.next(op).strong == 0,
{
}

/// While an owning handle is alive an upgrade succeeds; once the last one is
/// gone, no sequence of steps brings one back, so every later upgrade, through
/// any weak handle that remains, finds nothing.
pub proof fn lemma_upgrade_fails_forever(s: ArcState, ops: Seq<ArcOp>)
    requires
        s.inv(),
        s.runs(ops),
    ensures
        s.strong > 0 ==> s.next(ArcOp::Upgrade).strong == s.strong + 1,
        s.strong == 0 ==> s.run(ops).strong == 0 && s.run(ops).next(ArcOp::Upgrade) == s.run(ops),
    decreases ops.len(),
{
    if ops.len() > 0 {
        lemma_step_keeps_inv(s, ops[0]);
        lemma_upgrade_fails_forever(s.next(ops[0]), ops.drop_first());
    }
}

/// While a probe is in progress no weak handle exists, none can be made, and
/// the total count keeps its marker whatever other steps interleave, until
/// the probe ends.
pub proof fn lemma_probe_excludes_weak(s: ArcState, ops: Seq<ArcOp>)
    requires
        s.inv(),
        s.probing(),
        s.runs(ops),
        forall|i: int| 0 <= i < ops.len() ==> ops[i] != ArcOp::ProbeEnd,
    ensures
        s.run(ops).probing(),
        s.run(ops).weak == 0,
        s.run(ops).strong >= 1,
    decreases ops.len(),
{
    if ops.len() > 0 {
        lemma_step_keeps_inv(s, ops[0]);
        assert(ops[0] != ArcOp::ProbeEnd);
        let rest = ops.drop_first();
        assert forall|i: int| 0 <= i < rest.len() implies rest[i] != ArcOp::ProbeEnd by {
            assert(rest[i] == ops[i + 1]);
        }
        lemma_probe_excludes_weak(s.next(ops[0]), rest);
    }
}


/// What a thread does after reading a counter inside a compare-and-swap loop.
pub enum Step {
    /// Give up: the result is absent.
    Stop,
    /// Read the counter again without writing: another thread holds it.
    Wait,
    /// The count is at its limit: the process aborts.
    Abort,
    /// Try to replace the value read by this one.
    Swap(usize),
}

/// The decision of `upgrade` on a strong count that it read.
pub fn upgrade_step(observed: usize) -> (r: Step)
    ensures
        observed == 0 ==> r == Step::Stop,
        observed == usize::MAX ==> r == Step::Abort,
        0 < observed < usize::MAX ==> r == Step::Swap((observed + 1) as usize),
{
    if observed == 0 {
        Step::Stop
    } else if observed == usize::MAX {
        Step::Abort
    } else {
        Step::Swap(observed + 1)
    }
}

/// The decision of `downgrade` on a total count that it read.
pub fn downgrade_step(observed: usize) -> (r: Step)
    ensures
        observed == PROBING ==> r == Step::Wait,
        observed == usize::MAX - 1 ==> r == Step::Abort,
        observed < usize::MAX - 1 ==> r == Step::Swap((observed + 1) as usize),
{
    if observed == PROBING {
        Step::Wait
    } else if observed >= usize::MAX - 1 {
        Step::Abort
    } else {
        Step::Swap(observed + 1)
    }
}

/// Whether a clone that found `previous` in the counter it incremented must
/// abort the process.
pub fn clone_overflows(previous: usize) -> (r: bool)
    ensures
        r == (previous > MAX_REFS),
{
    previous > MAX_REFS
}

/// Whether a release that found `previous` in the counter it decremented took
/// away the last reference that the counter counts.
pub fn released_last(previous: usize) -> (r: bool)
    ensures
        r == (previous == 1),
{
    previous == 1
}

/// The shared allocation: its counters and its payload.
pub struct ArcData<T> {
    strong: usize,
    total: usize,
    payload: Option<T>,
    weak: Ghost<nat>,
    destroyed: Ghost<nat>,
}

/// An owning handle on an allocation.
pub struct Arc {
    seal: (),
}

/// A weak handle on an allocation: it keeps the allocation, not the payload.
pub struct Weak {
    seal: (),
}

impl<T> View for ArcData<T> {
    type V = ArcState;

    closed spec fn view(&self) -> ArcState {
        ArcState {
            strong: self.strong as nat,
            total: self.total as nat,
            weak: self.weak@,
            destroyed: self.destroyed@,
        }
    }
}

impl<T> ArcData<T> {
    /// The counters are consistent, and the payload is there exactly while
    /// an owning handle is.
    pub closed spec fn wf(&self) -> bool {
        &&& self@.inv()
        &&& self.payload.is_some() <==> self.strong > 0
    }

    /// The payload, while an owning handle is alive.
    pub closed spec fn payload(&self) -> Option<T> {
        self.payload
    }

    /// Whether the allocation is still held by some handle.
    pub fn is_allocated(&self) -> (r: bool)
        requires
            self.wf(),
        ensures
            r == (self@.total > 0),
    {
        self.total > 0
    }
}

impl Arc {
    /// Allocates `value` with one owning handle and no weak handle.
    pub fn new<T>(value: T) -> (r: (Arc, ArcData<T>))
        ensures
            r.1.wf(),
            r.1@ == ArcState::initial(),
            r.1.payload() == Some(value),
    {
        let data = ArcData {
            strong: 1,
            total: 1,
            payload: Some(value),
            weak: Ghost(0),
            destroyed: Ghost(0),
        };
        (Arc { seal: () }, data)
    }

    /// Reads the payload through an owning handle.
    pub fn get<'a, T>(&self, data: &'a ArcData<T>) -> (r: &'a T)
        requires
            data.wf(),
            data@.strong > 0,
        ensures
            data.payload() == Some(*r),
    {
        data.payload.as_ref().unwrap()
    }

    /// A second owning handle: the strong count goes up by one.
    pub fn clone<T>(&self, data: &mut ArcData<T>) -> (r: Arc)
        requires
            old(data).wf(),
            old(data)@.enabled(ArcOp::CloneStrong),
        ensures
            final(data).wf(),
            final(data)@ == old(data)@.next(ArcOp::CloneStrong),
            final(data).payload() == old(data).payload(),
    {
        let previous = data.strong;
        data.strong = previous + 1;
        Arc { seal: () }
    }

    /// Gives up this owning handle. The last one hands back the payload, to be
    /// destroyed, and gives up the reference that owning handles hold on the
    /// allocation.
    pub fn release<T>(self, data: &mut ArcData<T>) -> (r: Option<T>)
        requires
            old(data).wf(),
            old(data)@.enabled(ArcOp::ReleaseStrong),
        ensures
            final(data).wf(),
            final(data)@ == old(data)@.next(ArcOp::ReleaseStrong),
            old(data)@.strong == 1 ==> r == old(data).payload() && final(data).payload() is None,
            old(data)@.strong != 1 ==> r is None && final(data).payload() == old(data).payload(),
    {
        let previous = data.strong;
        data.strong = previous - 1;
        if released_last(previous) {
            data.total = data.total - 1;
            data.destroyed = Ghost(data.destroyed@ + 1);
            data.payload.take()
        } else {
            None
        }
    }

    /// One attempt at a weak handle. While a probe holds the total count the
    /// attempt changes nothing and returns `None`: the caller tries again.
    pub fn downgrade<T>(arc: &Arc, data: &mut ArcData<T>) -> (r: Option<Weak>)
        requires
            old(data).wf(),
            old(data)@.enabled(ArcOp::Downgrade),
        ensures
            final(data).wf(),
            final(data)@ == old(data)@.next(ArcOp::Downgrade),
            final(data).payload() == old(data).payload(),
            r is None <==> old(data)@.probing(),
    {
        match downgrade_step(data.total) {
            Step::Swap(next) => {
                data.total = next;
                data.weak = Ghost(data.weak@ + 1);
                Some(Weak { seal: () })
            },
            _ => None,
        }
    }

    /// Starts a probe for exclusive access: it holds the total count exactly
    /// when that count was one, that is when no weak handle exists.
    pub fn probe_begin<T>(&self, data: &mut ArcData<T>) -> (r: bool)
        requires
            old(data).wf(),
            old(data)@.enabled(ArcOp::ProbeBegin),
        ensures
            final(data).wf(),
            final(data)@ == old(data)@.next(ArcOp::ProbeBegin),
            final(data).payload() == old(data).payload(),
            r == (old(data)@.total == 1),
    {
        if data.total == 1 {
            data.total = PROBING;
            true
        } else {
            false
        }
    }

    /// Ends a probe: the total count is one again, and the result says whether
    /// this was the only owning handle.
    pub fn probe_end<T>(&self, data: &mut ArcData<T>) -> (r: bool)
        requires
            old(data).wf(),
            old(data)@.enabled(ArcOp::ProbeEnd),
        ensures
            final(data).wf(),
            final(data)@ == old(data)@.next(ArcOp::ProbeEnd),
            final(data).payload() == old(data).payload(),
            r == (old(data)@.strong == 1),
    {
        let unique = data.strong == 1;
        data.total = 1;
        unique
    }

    /// Mutable access to the payload, granted exactly when this is the only
    /// handle of any kind: one owning handle and no weak one. The counters
    /// are as they were.
    pub fn get_mut<'a, T>(arc: &Arc, data: &'a mut ArcData<T>) -> (r: Option<&'a mut T>)
        requires
            old(data).wf(),
            old(data)@.strong > 0,
            !old(data)@.probing(),
        ensures
            final(data).wf(),
            final(data)@ == old(data)@,
            r is Some <==> (old(data)@.strong == 1 && old(data)@.weak == 0),
            r is None ==> final(data).payload() == old(data).payload(),
            r is Some ==> old(data).payload() == Some(*r->0),
    {
        if !arc.probe_begin(data) {
            return None;
        }
        if !arc.probe_end(data) {
            return None;
        }
        data.payload.as_mut()
    }
}

impl Weak {
    /// A second weak handle: the total count goes up by one.
    pub fn clone<T>(&self, data: &mut ArcData<T>) -> (r: Weak)
        requires
            old(data).wf(),
            old(data)@.enabled(ArcOp::CloneWeak),
        ensures
            final(data).wf(),
            final(data)@ == old(data)@.next(ArcOp::CloneWeak),
            final(data).payload() == old(data).payload(),
    {
        data.total = data.total + 1;
        data.weak = Ghost(data.weak@ + 1);
        Weak { seal: () }
    }

    /// Gives up this weak handle; the result says whether it was the last
    /// reference of any kind, so that the allocation is freed.
    pub fn release<T>(self, data: &mut ArcData<T>) -> (r: bool)
        requires
            old(data).wf(),
            old(data)@.enabled(ArcOp::ReleaseWeak),
        ensures
            final(data).wf(),
            final(data)@ == old(data)@.next(ArcOp::ReleaseWeak),
            final(data).payload() == old(data).payload(),
            r == (old(data)@.total == 1),
    {
        let previous = data.total;
        data.total = previous - 1;
        data.weak = Ghost((data.weak@ - 1) as nat);
        released_last(previous)
    }

    /// An owning handle, present exactly while some owning handle is alive.
    pub fn upgrade<T>(&self, data: &mut ArcData<T>) -> (r: Option<Arc>)
        requires
            old(data).wf(),
            old(data)@.enabled(ArcOp::Upgrade),
        ensures
            final(data).wf(),
            final(data)@ == old(data)@.next(ArcOp::Upgrade),
            final(data).payload() == old(data).payload(),
            r is Some <==> old(data)@.strong > 0,
    {
        match upgrade_step(data.strong) {
            Step::Swap(next) => {
                data.strong = next;
                Some(Arc { seal: () })
            },
            _ => None,
        }
    }
}

} // verus!
