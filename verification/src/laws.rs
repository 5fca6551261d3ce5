use vstd::prelude::*;
use crate::booking::{booking_of, PayloadView};
use crate::service::StateView;

verus! {

/// Uniqueness of issued identifiers. `add_booking` returns the counter's
/// value at the time of the call and leaves the counter one higher, and no
/// other operation changes the counter, so along any run the counter values
/// seen by successive creates strictly grow; the ids a sequence of creates
/// returns are then strictly increasing, hence pairwise distinct.
pub proof fn lemma_issued_ids_strictly_increase(counters: Seq<u64>, ids: Seq<u64>)
    requires
        ids.len() == counters.len(),
        forall|i: int| 0 <= i < ids.len() ==> #[trigger] ids[i] == counters[i],
        forall|i: int| 0 <= i && i + 1 < counters.len() ==> #[trigger] counters[i] < counters[i + 1],
    ensures
        forall|i: int, j: int| 0 <= i < j < ids.len() ==> ids[i] < ids[j],
{
    assert forall|i: int, j: int| 0 <= i < j < ids.len() implies ids[i] < ids[j] by {
        lemma_counter_chain(counters, i, j);
    }
}

/// A chain of strict one-step growth is strict growth between any two points.
proof fn lemma_counter_chain(counters: Seq<u64>, i: int, j: int)
    requires
        0 <= i < j < counters.len(),
        forall|k: int| 0 <= k && k + 1 < counters.len() ==> #[trigger] counters[k] < counters[k + 1],
    ensures
        counters[i] < counters[j],
    decreases j - i,
{
    if i + 1 < j {
        lemma_counter_chain(counters, i + 1, j);
    }
}

/// The CRUD lifecycle over the service's state, as the operations' contracts
/// compose. Creating a draft under id `id` yields a state whose booking under
/// `id` is exactly the record built from the draft, so a read then returns
/// that record (`get_booking`'s ensures). Updating with a second draft keeps
/// the id and replaces every business field. Deleting removes the id, so a
/// later read, update or delete on it reports `NotFound` (their ensures tie
/// the error exactly to absence).
pub proof fn lemma_crud_lifecycle(s: StateView, d: PayloadView, d2: PayloadView, id: u64)
    ensures
        ({
            let created = s.bookings.insert(id, booking_of(id, d));
            &&& created.dom().contains(id)
            &&& created[id] == booking_of(id, d)
            &&& created[id].id == id
            &&& created[id].customer_name == d.customer_name
            &&& created[id].movie_name == d.movie_name
            &&& created[id].showtime == d.showtime
            &&& created[id].num_tickets == d.num_tickets
        }),
        ({
            let created = s.bookings.insert(id, booking_of(id, d));
            let updated = created.insert(id, booking_of(id, d2));
            &&& updated.dom().contains(id)
            &&& updated[id].id == id
            &&& updated[id].customer_name == d2.customer_name
            &&& updated[id].movie_name == d2.movie_name
            &&& updated[id].showtime == d2.showtime
            &&& updated[id].num_tickets == d2.num_tickets
        }),
        ({
            let created = s.bookings.insert(id, booking_of(id, d));
            !created.remove(id).dom().contains(id)
        }),
{
}

} // verus!
