//! The blocking gate's decision rule.
//!
//! One process-shared mutex and one condition variable arbitrate every
//! producer and consumer on a region. A caller that holds the mutex decides,
//! from its own predicate and the shutdown flag alone, whether to go ahead,
//! to park on the condition variable, or to give up because the region was
//! shut down. The callers that own the operating-system primitives run the
//! park-and-retry loop; the decision itself stands here.

use vstd::prelude::*;

verus! {

/// What the caller of a blocking operation does next.
#[derive(Clone, Copy, Debug, PartialEq, Eq, Structural)]
pub enum GateVerdict {
    /// The space or data predicate is met: perform the copy and the cursor
    /// update while still holding the mutex.
    Proceed,
    /// The predicate is unmet and the region is open: release the mutex,
    /// park on the condition variable, and re-check on every wakeup.
    Wait,
    /// The predicate is unmet and the region was shut down: stop waiting
    /// and surface the shutdown instead of a framed message.
    ShutdownObserved,
}

/// Decide one turn of the wait loop: `ready` is the caller's own measure
/// (free space for a producer, readable bytes for a consumer), `needed` what
/// its next step requires, `closed` the shutdown flag as read under the
/// mutex.
///
/// The predicate is checked before the flag, so a met predicate proceeds
/// even on a region already shut down.
pub fn gate_poll(ready: usize, needed: usize, closed: bool) -> (v: GateVerdict)
    ensures
        v == (if ready >= needed {
            GateVerdict::Proceed
        } else if closed {
            GateVerdict::ShutdownObserved
        } else {
            GateVerdict::Wait
        }),
{
    if ready >= needed {
        GateVerdict::Proceed
    } else if closed {
        GateVerdict::ShutdownObserved
    } else {
        GateVerdict::Wait
    }
}

} // verus!
