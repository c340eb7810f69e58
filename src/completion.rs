use vstd::prelude::*;

use crate::engine::after;
use crate::model::{DeliveryStatus, FetchError, Parcel};
use crate::store::{after_delete, has_id, ids_unique, update_where, Tracker};

verus! {

/// Where a tracker stands in the completion workflow.
#[derive(Clone, Copy, Debug, PartialEq, Eq, Structural)]
pub enum CompletionState {
    /// Not completed, not retained: polled and announced as usual.
    Active,
    /// Completed and not retained: prompted on every poll until answered.
    CompletedPendingDecision,
    /// Retained by the subscriber: never prompted again.
    CompletedRetained,
    /// Gone from the store.
    Deleted,
}

/// The position of the tracker with id `id`, for a sequence that has one.
pub open spec fn index_of(s: Seq<Tracker>, id: i64) -> int {
    choose|i: int| 0 <= i < s.len() && s[i].id == id
}

/// The completion state of tracker `id`, given the delivery status its
/// latest snapshot showed.
pub open spec fn state_of(s: Seq<Tracker>, id: i64, status: DeliveryStatus) -> CompletionState {
    if !has_id(s, id) {
        CompletionState::Deleted
    } else if s[index_of(s, id)].keep {
        CompletionState::CompletedRetained
    } else if status == DeliveryStatus::Completed {
        CompletionState::CompletedPendingDecision
    } else {
        CompletionState::Active
    }
}

/// With unique ids, the tracker found at `i` is the one `index_of` names.
pub proof fn lemma_index_of_unique(s: Seq<Tracker>, i: int)
    requires
        ids_unique(s),
        0 <= i < s.len(),
    ensures
        has_id(s, s[i].id),
        index_of(s, s[i].id) == i,
{
    assert(s[i].id == s[i].id);
    let j = index_of(s, s[i].id);
    assert(0 <= j < s.len() && s[j].id == s[i].id);
}

/// Answering "keep" to a pending prompt moves the tracker to `CompletedRetained`,
/// whatever later snapshots show.
pub proof fn lemma_keep_retains(s: Seq<Tracker>, id: i64, status: DeliveryStatus)
    requires
        ids_unique(s),
        state_of(s, id, DeliveryStatus::Completed) == CompletionState::CompletedPendingDecision,
    ensures
        state_of(update_where(s, id, |t: Tracker| Tracker { keep: true, ..t }), id, status)
            == CompletionState::CompletedRetained,
{
    let u = update_where(s, id, |t: Tracker| Tracker { keep: true, ..t });
    let i = index_of(s, id);
    assert(u[i].id == id);
    assert(has_id(u, id));
    assert(ids_unique(u)) by {
        assert forall|a: int, b: int| 0 <= a < u.len() && 0 <= b < u.len() && a != b implies #[trigger] u[a].id
            != #[trigger] u[b].id by {
            assert(u[a].id == s[a].id);
            assert(u[b].id == s[b].id);
        }
    }
    lemma_index_of_unique(u, i);
}

/// Answering "delete" as the owner removes the tracker: whatever a later
/// snapshot shows, its state is `Deleted`.
pub proof fn lemma_owner_delete_ends(s: Seq<Tracker>, id: i64, chat_id: i64, status: DeliveryStatus)
    requires
        ids_unique(s),
        has_id(s, id),
        s[index_of(s, id)].chat_id == chat_id,
    ensures
        state_of(after_delete(s, id, chat_id), id, status) == CompletionState::Deleted,
{
    broadcast use vstd::seq_lib::group_filter_ensures;
    let d = after_delete(s, id, chat_id);
    let i = index_of(s, id);
    if has_id(d, id) {
        let k = choose|k: int| 0 <= k < d.len() && #[trigger] d[k].id == id;
        assert(d.contains(d[k]));
        s.lemma_filter_contains_rev(|t: Tracker| !(t.id == id && t.chat_id == chat_id), d[k]);
        let m = choose|m: int| 0 <= m < s.len() && s[m] == d[k];
        assert(m == i);
        assert(!(d[k].id == id && d[k].chat_id == chat_id));
    }
}

/// A poll never changes a tracker's completion state except through the
/// delivery status it reports: the retain flag and the tracker's presence stay.
pub proof fn lemma_poll_keeps_retention(
    s: Seq<Tracker>,
    i: int,
    fetched: Result<Parcel, FetchError>,
    status: DeliveryStatus,
)
    requires
        ids_unique(s),
        0 <= i < s.len(),
    ensures
        state_of(s.update(i, after(s[i], fetched)), s[i].id, status) == state_of(s, s[i].id, status),
{
    let u = s.update(i, after(s[i], fetched));
    assert(u[i].id == s[i].id);
    assert(ids_unique(u)) by {
        assert forall|a: int, b: int| 0 <= a < u.len() && 0 <= b < u.len() && a != b implies #[trigger] u[a].id
            != #[trigger] u[b].id by {
            assert(u[a].id == s[a].id);
            assert(u[b].id == s[b].id);
        }
    }
    lemma_index_of_unique(s, i);
    lemma_index_of_unique(u, i);
}

} // verus!
