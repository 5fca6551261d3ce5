use vstd::prelude::*;
use crate::booking::{booking_of, Booking, BookingPayload, BookingView, Error};
use crate::codec::{decode, encode, fits, lemma_encode_injective, payload_fits, payload_within_bound, spec_encode};
use crate::storage::{
    alloc_region, counter_region, counter_value, fresh_state, reopen, store_contents, store_region,
    Counter, DurableParts, SegmentAllocator, Store, COUNTER_SEGMENT, STORE_SEGMENT,
};

verus! {

/// The mathematical state of the service: the next identifier to issue and
/// the live bookings by id.
pub struct StateView {
    pub counter: u64,
    pub bookings: Map<u64, BookingView>,
}

/// Identifier issuance plus create/read/update/delete over durable bookings,
/// composed from the durable counter, the record codec and the durable
/// ordered store, each backed by its own segment of one persistent region.
pub struct BookingService {
    alloc: SegmentAllocator,
    counter: Counter,
    store: Store,
    model: Ghost<Map<u64, BookingView>>,
}

impl View for BookingService {
    type V = StateView;

    closed spec fn view(&self) -> StateView {
        StateView { counter: counter_value(self.counter), bookings: self.model@ }
    }
}

impl BookingService {
    /// Well-formedness: the counter and the store live in the allocator's
    /// region, and the store holds exactly the encodings of the modelled
    /// bookings, each stored under its own id, within the size bound, and
    /// below the counter — ids are issued by the counter alone, so a freshly
    /// issued id is never already present.
    pub closed spec fn wf(self) -> bool {
        &&& counter_region(self.counter) == alloc_region(self.alloc)
        &&& store_region(self.store) == alloc_region(self.alloc)
        &&& store_contents(self.store).dom() == self.model@.dom()
        &&& forall|id: u64|
            self.model@.dom().contains(id) ==> {
                &&& store_contents(self.store)[id] == spec_encode(#[trigger] self.model@[id])
                &&& self.model@[id].id == id
                &&& fits(self.model@[id])
                &&& self.model@[id].id < counter_value(self.counter)
            }
    }

    /// Opens a brand-new persistent region: no bookings, counter at zero.
    pub fn new() -> (s: Self)
        ensures
            s.wf(),
            s@.counter == 0,
            s@.bookings == Map::<u64, BookingView>::empty(),
    {
        let parts = fresh_state(COUNTER_SEGMENT, STORE_SEGMENT);
        let ghost m = Map::<u64, BookingView>::empty();
        proof {
            assert(store_contents(parts.store).dom() =~= m.dom());
        }
        BookingService { alloc: parts.alloc, counter: parts.counter, store: parts.store, model: Ghost(m) }
    }

    /// Simulates a process restart: drops the in-process handles and reloads
    /// the counter and the store from the same persistent region. The whole
    /// state survives.
    pub fn restart(self) -> (s: Self)
        requires
            self.wf(),
        ensures
            s.wf(),
            s@ == self@,
    {
        let BookingService { alloc, counter, store, model } = self;
        let parts = reopen(alloc, counter, store);
        BookingService { alloc: parts.alloc, counter: parts.counter, store: parts.store, model }
    }

    /// The value the counter currently holds: the id the next create returns.
    pub fn next_free_id(&self) -> (r: u64)
        ensures
            r == self@.counter,
    {
        self.counter.value()
    }

    /// Issues the next identifier: returns the counter's value and durably
    /// advances it by one, so no two calls ever return the same value.
    pub fn next_id(&mut self) -> (r: u64)
        requires
            old(self).wf(),
            old(self)@.counter < u64::MAX,
        ensures
            final(self).wf(),
            r == old(self)@.counter,
            final(self)@.counter == old(self)@.counter + 1,
            final(self)@.bookings == old(self)@.bookings,
    {
        let v = self.counter.value();
        self.counter.set_value(v + 1);
        v
    }

    /// Encodes the booking and writes it into the store under its own id,
    /// overwriting any previous record there. The counter is untouched; the
    /// id must have been issued by it, i.e. lie below its current value.
    pub fn do_insert(&mut self, booking: &Booking)
        requires
            old(self).wf(),
            fits(booking@),
            booking.id < old(self)@.counter,
        ensures
            final(self).wf(),
            final(self)@.counter == old(self)@.counter,
            final(self)@.bookings == old(self)@.bookings.insert(booking.id, booking@),
    {
        let bytes = encode(booking);
        let _prev = self.store.put(booking.id, bytes);
        proof {
            self.model@ = self.model@.insert(booking.id, booking@);
        }
    }

    /// Creates a booking: issues a fresh id — one no booking is stored under,
    /// so nothing is overwritten — stores the record built from the payload
    /// under it, and returns that record. The caller rejects oversized
    /// payloads beforehand (see `payload_within_bound`).
    pub fn add_booking(&mut self, booking: BookingPayload) -> (r: Option<Booking>)
        requires
            old(self).wf(),
            old(self)@.counter < u64::MAX,
            payload_fits(booking@),
        ensures
            final(self).wf(),
            match r {
                Some(b) => {
                    &&& b@ == booking_of(old(self)@.counter, booking@)
                    &&& !old(self)@.bookings.dom().contains(b.id)
                    &&& final(self)@.counter == old(self)@.counter + 1
                    &&& final(self)@.bookings == old(self)@.bookings.insert(b.id, b@)
                },
                None => false,
            },
    {
        let id = self.next_id();
        proof {
            if old(self).model@.dom().contains(id) {
                assert(old(self).model@[id].id == id);
            }
        }
        let record = Booking {
            id,
            customer_name: booking.customer_name,
            movie_name: booking.movie_name,
            showtime: booking.showtime,
            num_tickets: booking.num_tickets,
        };
        self.do_insert(&record);
        Some(record)
    }

    /// Point lookup: the stored booking for `id`, if present.
    pub fn _get_booking(&self, id: &u64) -> (r: Option<Booking>)
        requires
            self.wf(),
        ensures
            match r {
                Some(b) => self@.bookings.dom().contains(*id) && b@ == self@.bookings[*id],
                None => !self@.bookings.dom().contains(*id),
            },
    {
        match self.store.fetch(*id) {
            Some(bytes) => {
                match decode(&bytes) {
                    Ok(b) => {
                        proof {
                            lemma_encode_injective(b@, self.model@[*id]);
                        }
                        Some(b)
                    },
                    Err(_) => {
                        proof {
                            assert(bytes@ == spec_encode(self.model@[*id]));
                            assert(false);
                        }
                        None
                    },
                }
            },
            None => None,
        }
    }

    /// Reads the booking for `id`, failing with `NotFound` exactly when no
    /// booking is present under it.
    pub fn get_booking(&self, id: u64) -> (r: Result<Booking, Error>)
        requires
            self.wf(),
        ensures
            match r {
                Ok(b) => self@.bookings.dom().contains(id) && b@ == self@.bookings[id],
                Err(e) => !self@.bookings.dom().contains(id) && e == (Error::NotFound { id }),
            },
    {
        match self._get_booking(&id) {
            Some(booking) => Ok(booking),
            None => Err(Error::NotFound { id }),
        }
    }

    /// Replaces the business fields of the booking under `id` with the
    /// payload's, keeping the id, and returns the merged record; fails with
    /// `NotFound` exactly when no booking is present under `id`, leaving the
    /// state unchanged. The caller rejects oversized payloads beforehand.
    pub fn update_booking(&mut self, id: u64, payload: BookingPayload) -> (r: Result<
        Booking,
        Error,
    >)
        requires
            old(self).wf(),
            payload_fits(payload@),
        ensures
            final(self).wf(),
            final(self)@.counter == old(self)@.counter,
            match r {
                Ok(b) => {
                    &&& old(self)@.bookings.dom().contains(id)
                    &&& b@ == booking_of(id, payload@)
                    &&& final(self)@.bookings == old(self)@.bookings.insert(id, b@)
                },
                Err(e) => {
                    &&& !old(self)@.bookings.dom().contains(id)
                    &&& e == (Error::NotFound { id })
                    &&& final(self)@ == old(self)@
                },
            },
    {
        match self._get_booking(&id) {
            Some(_existing) => {
                let merged = Booking {
                    id,
                    customer_name: payload.customer_name,
                    movie_name: payload.movie_name,
                    showtime: payload.showtime,
                    num_tickets: payload.num_tickets,
                };
                self.do_insert(&merged);
                Ok(merged)
            },
            None => Err(Error::NotFound { id }),
        }
    }

    /// Removes and returns the booking under `id`; fails with `NotFound`
    /// exactly when no booking is present under it, leaving the state
    /// unchanged.
    pub fn delete_booking(&mut self, id: u64) -> (r: Result<Booking, Error>)
        requires
            old(self).wf(),
        ensures
            final(self).wf(),
            final(self)@.counter == old(self)@.counter,
            match r {
                Ok(b) => {
                    &&& old(self)@.bookings.dom().contains(id)
                    &&& b@ == old(self)@.bookings[id]
                    &&& final(self)@.bookings == old(self)@.bookings.remove(id)
                },
                Err(e) => {
                    &&& !old(self)@.bookings.dom().contains(id)
                    &&& e == (Error::NotFound { id })
                    &&& final(self)@ == old(self)@
                },
            },
    {
        match self.store.take(id) {
            Some(bytes) => {
                match decode(&bytes) {
                    Ok(b) => {
                        proof {
                            lemma_encode_injective(b@, self.model@[id]);
                            self.model@ = self.model@.remove(id);
                            assert(store_contents(self.store).dom() =~= self.model@.dom());
                        }
                        Ok(b)
                    },
                    Err(_) => {
                        proof {
                            assert(bytes@ == spec_encode(old(self).model@[id]));
                            assert(false);
                        }
                        Err(Error::NotFound { id })
                    },
                }
            },
            None => {
                proof {
                    assert(store_contents(self.store) =~= store_contents(old(self).store));
                }
                Err(Error::NotFound { id })
            },
        }
    }

    /// Whether the payload may be handed to `add_booking` or `update_booking`:
    /// its fields stay within the codec's size bound.
    pub fn payload_acceptable(payload: &BookingPayload) -> (r: bool)
        ensures
            r == payload_fits(payload@),
    {
        payload_within_bound(payload)
    }
}

} // verus!
