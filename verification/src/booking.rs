use vstd::prelude::*;

verus! {

/// A persisted ticket booking. `id` is assigned by the service when the record
/// is created and never changes afterwards.
#[derive(Debug, PartialEq, Eq)]
pub struct Booking {
    pub id: u64,
    pub customer_name: String,
    pub movie_name: String,
    pub showtime: String,
    pub num_tickets: u64,
}

/// The caller-supplied business fields for creating or updating a booking:
/// the same fields as `Booking` but without the system-assigned `id`.
#[derive(Debug)]
pub struct BookingPayload {
    pub customer_name: String,
    pub movie_name: String,
    pub showtime: String,
    pub num_tickets: u64,
}

/// The mathematical value of a `Booking`: text fields as character sequences.
pub struct BookingView {
    pub id: u64,
    pub customer_name: Seq<char>,
    pub movie_name: Seq<char>,
    pub showtime: Seq<char>,
    pub num_tickets: u64,
}

/// The mathematical value of a `BookingPayload`.
pub struct PayloadView {
    pub customer_name: Seq<char>,
    pub movie_name: Seq<char>,
    pub showtime: Seq<char>,
    pub num_tickets: u64,
}

impl View for Booking {
    type V = BookingView;

    open spec fn view(&self) -> BookingView {
        BookingView {
            id: self.id,
            customer_name: self.customer_name@,
            movie_name: self.movie_name@,
            showtime: self.showtime@,
            num_tickets: self.num_tickets,
        }
    }
}

impl View for BookingPayload {
    type V = PayloadView;

    open spec fn view(&self) -> PayloadView {
        PayloadView {
            customer_name: self.customer_name@,
            movie_name: self.movie_name@,
            showtime: self.showtime@,
            num_tickets: self.num_tickets,
        }
    }
}

/// The booking that a create or update call building on `payload` stores under `id`.
pub open spec fn booking_of(id: u64, payload: PayloadView) -> BookingView {
    BookingView {
        id,
        customer_name: payload.customer_name,
        movie_name: payload.movie_name,
        showtime: payload.showtime,
        num_tickets: payload.num_tickets,
    }
}

/// The domain error of the service: the addressed booking is not present.
#[derive(Debug, PartialEq, Eq)]
pub enum Error {
    NotFound { id: u64 },
}

/// The codec's failure: the bytes are not an encoding this codec produces,
/// which for stored data signals corruption of the persistent region.
#[derive(Debug, PartialEq, Eq)]
pub enum CodecError {
    CorruptRecord,
}

} // verus!
