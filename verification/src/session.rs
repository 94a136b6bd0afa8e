//! Device sessions and dispatch orchestration.
//!
//! One session per enumerated physical device; sessions share only the
//! read-only translated context. The decisions of the work loop live here:
//! sizing and encoding a batch, the protocol binding order, registering a
//! device after its pipeline creation succeeded or failed, and excluding a
//! failed device without touching the others. The device work itself
//! (uploads, dispatch, fence waits) is performed by the unverified driver
//! around this crate, which hands outcomes back as plain values.

use std::sync::Arc;
use vstd::prelude::*;

use crate::encoding::encode_candidates;
use crate::encoding::scalar_limb;
use crate::encoding::SCALAR_BYTES;
use crate::encoding::SCALAR_WORDS;
use crate::errors::BatchTooLargeError;
use crate::errors::DeviceError;
use crate::interpret::RECORD_WORDS;
use crate::layout::TranslatedContext;
use crate::native::fill_random_bytes;

verus! {

/// Default invocations per dispatch, bounded by typical workgroup limits.
pub const DEFAULT_MAX_INVOCATIONS: usize = 128;

/// One compute-capable device's resources: its index among the enumerated
/// physical devices, its dispatch bound, and the shared read-only context.
pub struct DeviceSession {
    pub device_index: usize,
    pub max_invocations: usize,
    pub context: Arc<TranslatedContext>,
}

/// Everything one dispatch round needs from the host side: the invocation
/// count, the kernel's input buffer image, and the expected output size.
pub struct DispatchPlan {
    pub invocations: usize,
    pub input_words: Vec<u32>,
    pub output_word_count: usize,
}

/// The input buffer image a plan promises: candidate `c`'s limb `j` at word
/// `c * 8 + j`, encoded exactly as the kernel expects, with the output sized
/// to one record per invocation.
pub open spec fn plan_matches(s: DeviceSession, candidates: Seq<u8>, p: DispatchPlan) -> bool {
    let n = candidates.len() as int / SCALAR_BYTES as int;
    &&& p.invocations == n
    &&& p.input_words@.len() == n * SCALAR_WORDS as int
    &&& forall|c: int, j: int|
        0 <= c < n && 0 <= j < SCALAR_WORDS ==> #[trigger] p.input_words@[c * SCALAR_WORDS + j]
            == scalar_limb(candidates.subrange(c * SCALAR_BYTES, (c + 1) * SCALAR_BYTES), j)
    &&& p.output_word_count == n * RECORD_WORDS as int
}

impl DeviceSession {
    /// Context partitions bound to this session, in binding order.
    pub open spec fn partition_count(self) -> int {
        (*self.context).partitions@.len() as int
    }

    /// Machine limits a session respects: its dispatch bound keeps the output
    /// buffer addressable, and its context is a real translation (at most one
    /// partition per table row).
    pub open spec fn wf(self) -> bool {
        &&& self.max_invocations as int * RECORD_WORDS as int <= usize::MAX as int
        &&& self.partition_count() <= 64
    }

    /// Binding index of the rest structure: right after the partitions.
    pub open spec fn rest_binding(self) -> int {
        self.partition_count()
    }

    /// Binding index of the per-invocation input scalar buffer.
    pub open spec fn input_binding(self) -> int {
        self.partition_count() + 1
    }

    /// Binding index of the per-invocation output record buffer.
    pub open spec fn output_binding(self) -> int {
        self.partition_count() + 2
    }

    /// Binds one physical device to the shared context.
    pub fn new(device_index: usize, max_invocations: usize, context: Arc<TranslatedContext>) -> (s:
        Self)
        requires
            max_invocations as int * RECORD_WORDS as int <= usize::MAX as int,
            (*context).partitions@.len() <= 64,
        ensures
            s.device_index == device_index,
            s.max_invocations == max_invocations,
            s.context == context,
            s.wf(),
    {
        DeviceSession { device_index, max_invocations, context }
    }

    /// Sizes and encodes one batch. Succeeds exactly when the batch fits the
    /// session's dispatch bound; a larger batch is the caller's error and is
    /// reported, never truncated.
    pub fn plan_batch(&self, candidates: &Vec<u8>) -> (r: Result<DispatchPlan, BatchTooLargeError>)
        requires
            self.wf(),
            candidates@.len() as int % SCALAR_BYTES as int == 0,
        ensures
            match r {
                Ok(p) => candidates@.len() as int / SCALAR_BYTES as int
                    <= self.max_invocations as int && plan_matches(*self, candidates@, p),
                Err(e) => {
                    &&& candidates@.len() as int / SCALAR_BYTES as int
                        > self.max_invocations as int
                    &&& e.requested == candidates@.len() as int / SCALAR_BYTES as int
                    &&& e.limit == self.max_invocations
                },
            },
    {
        let n = candidates.len() / SCALAR_BYTES;
        if n > self.max_invocations {
            return Err(BatchTooLargeError { requested: n, limit: self.max_invocations });
        }
        let input_words = encode_candidates(candidates);
        proof {
            assert(n as int * RECORD_WORDS as int <= self.max_invocations as int
                * RECORD_WORDS as int) by (nonlinear_arith)
                requires
                    n as int <= self.max_invocations as int,
            ;
        }
        let output_word_count = n * RECORD_WORDS;
        Ok(DispatchPlan { invocations: n, input_words, output_word_count })
    }
}

/// Generates `count` fresh 32-byte candidates, back to back, from the system
/// random-number generator. Only the length is promised: the values are
/// random.
pub fn generate_candidates(count: usize) -> (r: Vec<u8>)
    requires
        count as int * SCALAR_BYTES as int <= usize::MAX as int,
    ensures
        r@.len() == count as int * SCALAR_BYTES as int,
{
    let total = count * SCALAR_BYTES;
    let mut buf: Vec<u8> = Vec::new();
    let mut i: usize = 0;
    while i < total
        invariant
            i <= total,
            buf@.len() == i,
        decreases total - i,
    {
        buf.push(0);
        i += 1;
    }
    fill_random_bytes(&mut buf);
    buf
}

/// The predicate by which the active set is thinned when device `failed`
/// drops out: every other session is kept.
pub open spec fn keeps(failed: usize) -> spec_fn(DeviceSession) -> bool {
    |s: DeviceSession| s.device_index != failed
}

/// Exactly one session per enumerated physical device: no two sessions in
/// the active set share a device index.
pub open spec fn one_session_per_device(sessions: Seq<DeviceSession>) -> bool {
    forall|i: int, j: int|
        0 <= i < j < sessions.len() ==> (#[trigger] sessions[i]).device_index
            != (#[trigger] sessions[j]).device_index
}

/// The set of live device sessions. Sessions never share mutable state;
/// a device-scoped failure only ever removes that one session.
pub struct Orchestrator {
    pub sessions: Vec<DeviceSession>,
}

impl Orchestrator {
    /// Starts with no devices registered.
    pub fn new() -> (o: Self)
        ensures
            o.sessions@.len() == 0,
    {
        Orchestrator { sessions: Vec::new() }
    }

    /// Registers a freshly constructed session, given the outcome of its
    /// buffer and pipeline creation as reported by the driver. A creation
    /// failure is fatal for that device only: the session is dropped, the
    /// error reported, and the active set left unchanged.
    pub fn register_device(&mut self, session: DeviceSession, creation: Result<
        (),
        DeviceError,
    >) -> (r: Result<(), DeviceError>)
        ensures
            match creation {
                Ok(_) => final(self).sessions@ == old(self).sessions@.push(session) && r is Ok,
                Err(e) => final(self).sessions@ == old(self).sessions@ && r == Err::<
                    (),
                    DeviceError,
                >(e),
            },
            one_session_per_device(old(self).sessions@) && (forall|i: int|
                0 <= i < old(self).sessions@.len() ==> (#[trigger] old(
                    self,
                ).sessions@[i]).device_index != session.device_index) ==> one_session_per_device(
                final(self).sessions@,
            ),
    {
        match creation {
            Ok(_) => {
                self.sessions.push(session);
                Ok(())
            },
            Err(e) => Err(e),
        }
    }

    /// Number of devices still in the active set.
    pub fn active_count(&self) -> (n: usize)
        ensures
            n == self.sessions@.len(),
    {
        self.sessions.len()
    }

    /// Removes the failed device from the active set for the remainder of the
    /// run. Every other session is kept, unchanged and in order.
    pub fn exclude_device(&mut self, failed: usize)
        ensures
            final(self).sessions@ == old(self).sessions@.filter(keeps(failed)),
    {
        let mut taken: Vec<DeviceSession> = Vec::new();
        core::mem::swap(&mut self.sessions, &mut taken);
        let ghost orig = taken@;
        let mut kept: Vec<DeviceSession> = Vec::new();
        let ghost pred = keeps(failed);
        let mut i: usize = 0;
        proof {
            assert(taken.len() == taken@.len());
            assert(orig.take(0).filter(pred) =~= Seq::<DeviceSession>::empty());
            assert(Seq::<DeviceSession>::empty().filter(pred) =~= Seq::<
                DeviceSession,
            >::empty());
        }
        while taken.len() > 0
            invariant
                i <= orig.len(),
                orig.len() <= usize::MAX,
                taken@ == orig.skip(i as int),
                kept@ == orig.take(i as int).filter(pred),
                pred == keeps(failed),
            decreases taken@.len(),
        {
            let s = taken.remove(0);
            proof {
                assert(s == orig[i as int]);
                assert(taken@ =~= orig.skip(i as int + 1));
                lemma_filter_push(orig.take(i as int), orig[i as int], pred);
                assert(orig.take(i as int).push(orig[i as int]) =~= orig.take(i as int + 1));
            }
            if s.device_index != failed {
                kept.push(s);
            }
            i += 1;
        }
        proof {
            assert(orig.take(orig.len() as int) =~= orig);
        }
        self.sessions = kept;
    }
}

proof fn lemma_filter_push(
    s: Seq<DeviceSession>,
    x: DeviceSession,
    pred: spec_fn(DeviceSession) -> bool,
)
    ensures
        s.push(x).filter(pred) == (if pred(x) {
            s.filter(pred).push(x)
        } else {
            s.filter(pred)
        }),
{
    reveal(Seq::filter);
    assert(s.push(x).drop_last() =~= s);
    assert(s.push(x).last() == x);
}

proof fn lemma_filter_subset(s: Seq<DeviceSession>, pred: spec_fn(DeviceSession) -> bool)
    ensures
        forall|i: int|
            0 <= i < s.filter(pred).len() ==> s.contains(#[trigger] s.filter(pred)[i]),
    decreases s.len(),
{
    reveal(Seq::filter);
    if s.len() > 0 {
        let dl = s.drop_last();
        lemma_filter_subset(dl, pred);
        assert forall|i: int|
            0 <= i < s.filter(pred).len() implies s.contains(#[trigger] s.filter(pred)[i]) by {
            let f = s.filter(pred);
            if pred(s.last()) && i == f.len() - 1 {
                assert(f[i] == s.last());
                assert(s[s.len() - 1] == s.last());
            } else {
                let dlf = dl.filter(pred);
                assert(f[i] == dlf[i]);
                assert(dl.contains(dlf[i]));
                let k = choose|k: int| 0 <= k < dl.len() && dl[k] == f[i];
                assert(s[k] == f[i]);
            }
        }
    }
}

proof fn lemma_filter_distinct(s: Seq<DeviceSession>, pred: spec_fn(DeviceSession) -> bool)
    requires
        one_session_per_device(s),
    ensures
        one_session_per_device(s.filter(pred)),
    decreases s.len(),
{
    reveal(Seq::filter);
    if s.len() > 0 {
        let dl = s.drop_last();
        assert(one_session_per_device(dl));
        lemma_filter_distinct(dl, pred);
        lemma_filter_subset(dl, pred);
        let f = s.filter(pred);
        let dlf = dl.filter(pred);
        if pred(s.last()) {
            assert forall|i: int, j: int|
                0 <= i < j < f.len() implies (#[trigger] f[i]).device_index
                != (#[trigger] f[j]).device_index by {
                if j < dlf.len() {
                    assert(f[i] == dlf[i] && f[j] == dlf[j]);
                } else {
                    assert(f[j] == s.last());
                    assert(f[i] == dlf[i]);
                    assert(dl.contains(dlf[i]));
                    let k = choose|k: int| 0 <= k < dl.len() && dl[k] == f[i];
                    assert(s[k] == f[i]);
                    assert(s[s.len() - 1] == s.last());
                }
            }
        }
    }
}

/// Law: excluding one failed device keeps the active set's invariant that no
/// two sessions share a device.
pub proof fn lemma_exclusion_preserves_uniqueness(sessions: Seq<DeviceSession>, failed: usize)
    requires
        one_session_per_device(sessions),
    ensures
        one_session_per_device(sessions.filter(keeps(failed))),
{
    lemma_filter_distinct(sessions, keeps(failed));
}

/// Law: excluding one failed device isolates the failure. After the active
/// set is thinned, no session of the failed device remains, and every other
/// session survives as the very same value, in particular with the same
/// context, dispatch bound, and hence the same batch plans and results as
/// before the exclusion.
pub proof fn lemma_exclusion_isolates(sessions: Seq<DeviceSession>, failed: usize)
    ensures
        forall|i: int|
            0 <= i < sessions.filter(keeps(failed)).len() ==> (#[trigger] sessions.filter(
                keeps(failed),
            )[i]).device_index != failed,
        forall|j: int|
            0 <= j < sessions.len() && sessions[j].device_index != failed ==> sessions.filter(
                keeps(failed),
            ).contains(#[trigger] sessions[j]),
        forall|i: int|
            0 <= i < sessions.filter(keeps(failed)).len() ==> sessions.contains(
                #[trigger] sessions.filter(keeps(failed))[i],
            ),
{
    broadcast use vstd::seq_lib::group_filter_ensures;

    lemma_filter_subset(sessions, keeps(failed));
}

} // verus!
