//! The life of a handle, told as the events of its owners.
//!
//! Compiling a pattern makes a handle with one owner. From then on an owner is
//! added with each cursor that is made or copied, and taken away with each
//! owner that is released. The owner whose release brings the number to zero
//! frees the handle.

use crate::detail::release_of;
use crate::detail::REFCOUNT_MAX;
use vstd::prelude::*;

verus! {

/// What happens to the number of owners of a handle.
pub enum OwnerEvent {
    /// A cursor is made or copied: one owner more.
    Acquire,
    /// An owner is released: one owner less.
    Release,
}

/// The number of owners of a handle after `events`, counted from the one owner
/// that compiling gives it.
pub open spec fn owners_after(events: Seq<OwnerEvent>) -> int
    decreases events.len(),
{
    if events.len() == 0 {
        1
    } else {
        owners_after(events.drop_last()) + match events.last() {
            OwnerEvent::Acquire => 1int,
            OwnerEvent::Release => -1int,
        }
    }
}

/// How often the handle is freed in the course of `events`: once for each
/// release that tells its owner to free it.
pub open spec fn frees(events: Seq<OwnerEvent>) -> nat
    decreases events.len(),
{
    if events.len() == 0 {
        0
    } else {
        let before = events.drop_last();
        if events.last() is Release && release_of(owners_after(before), false) is Free {
            frees(before) + 1
        } else {
            frees(before)
        }
    }
}

/// Every event of `events` finds the handle with an owner, as the operations
/// on a handle demand, and every new owner finds room for it.
pub open spec fn admissible(events: Seq<OwnerEvent>) -> bool {
    forall|k: int|
        0 <= k < events.len() ==> {
            let owners = owners_after(#[trigger] events.take(k));
            &&& 1 <= owners
            &&& events[k] is Acquire ==> owners < REFCOUNT_MAX
        }
}

/// A handle is freed when its last owner is released, and only then: after
/// any admissible course of events it has been freed once if no owner is left
/// and not at all otherwise. The number of owners is never negative and never
/// above the limit.
pub proof fn lemma_freed_once(events: Seq<OwnerEvent>)
    requires
        admissible(events),
    ensures
        0 <= owners_after(events) <= REFCOUNT_MAX,
        frees(events) == if owners_after(events) == 0 {
            1nat
        } else {
            0nat
        },
    decreases events.len(),
{
    if events.len() > 0 {
        let before = events.drop_last();
        assert forall|k: int| 0 <= k < before.len() implies {
            let owners = owners_after(#[trigger] before.take(k));
            &&& 1 <= owners
            &&& before[k] is Acquire ==> owners < REFCOUNT_MAX
        } by {
            assert(before.take(k) =~= events.take(k));
        }
        lemma_freed_once(before);
        assert(events.take(events.len() - 1) =~= before);
    }
}

/// A handle that has been freed admits no further event: it is neither used
/// nor freed again.
pub proof fn lemma_freed_is_final(events: Seq<OwnerEvent>, next: OwnerEvent)
    requires
        admissible(events),
        owners_after(events) == 0,
    ensures
        !admissible(events.push(next)),
{
    let longer = events.push(next);
    assert(longer.take(events.len() as int) =~= events);
}

} // verus!
