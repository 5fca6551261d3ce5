use booking_store::booking::{Booking, BookingPayload, Error};
use booking_store::service::BookingService;

fn payload(customer: &str, movie: &str, showtime: &str, tickets: u64) -> BookingPayload {
    BookingPayload {
        customer_name: customer.to_string(),
        movie_name: movie.to_string(),
        showtime: showtime.to_string(),
        num_tickets: tickets,
    }
}

fn assert_fields(b: &Booking, customer: &str, movie: &str, showtime: &str, tickets: u64) {
    assert_eq!(b.customer_name, customer);
    assert_eq!(b.movie_name, movie);
    assert_eq!(b.showtime, showtime);
    assert_eq!(b.num_tickets, tickets);
}

#[test]
fn example_scenario() {
    let mut s = BookingService::new();
    let ann = s.add_booking(payload("Ann", "Dune", "19:00", 2)).unwrap();
    assert_eq!(ann.id, 0);
    assert_fields(&ann, "Ann", "Dune", "19:00", 2);
    let bo = s.add_booking(payload("Bo", "Dune", "19:00", 1)).unwrap();
    assert_eq!(bo.id, 1);
    let updated = s.update_booking(0, payload("Ann", "Dune", "21:00", 2)).unwrap();
    assert_eq!(updated.id, 0);
    assert_fields(&updated, "Ann", "Dune", "21:00", 2);
    let removed = s.delete_booking(1).unwrap();
    assert_eq!(removed.id, 1);
    assert_fields(&removed, "Bo", "Dune", "19:00", 1);
    assert_eq!(s.get_booking(1).unwrap_err(), Error::NotFound { id: 1 });
}

#[test]
fn created_ids_are_distinct_and_strictly_increasing() {
    let mut s = BookingService::new();
    let mut ids = Vec::new();
    for i in 0..5u64 {
        ids.push(s.add_booking(payload("C", "M", "18:00", i)).unwrap().id);
    }
    s.delete_booking(2).unwrap();
    s.delete_booking(4).unwrap();
    ids.push(s.add_booking(payload("C", "M", "18:00", 9)).unwrap().id);
    for w in ids.windows(2) {
        assert!(w[0] < w[1], "ids must strictly increase, never reusing a deleted one");
    }
    assert_eq!(ids, vec![0, 1, 2, 3, 4, 5]);
}

#[test]
fn read_returns_what_create_stored() {
    let mut s = BookingService::new();
    let created = s.add_booking(payload("Ann", "Dune", "19:00", 2)).unwrap();
    let read = s.get_booking(created.id).unwrap();
    assert_eq!(read.id, created.id);
    assert_fields(&read, "Ann", "Dune", "19:00", 2);
    s.delete_booking(created.id).unwrap();
    assert_eq!(s.get_booking(created.id).unwrap_err(), Error::NotFound { id: created.id });
}

#[test]
fn update_preserves_identity_and_replaces_fields() {
    let mut s = BookingService::new();
    let id = s.add_booking(payload("Ann", "Dune", "19:00", 2)).unwrap().id;
    let updated = s.update_booking(id, payload("Anna", "Alien", "22:30", 4)).unwrap();
    assert_eq!(updated.id, id);
    assert_fields(&updated, "Anna", "Alien", "22:30", 4);
    let read = s.get_booking(id).unwrap();
    assert_eq!(read.id, id);
    assert_fields(&read, "Anna", "Alien", "22:30", 4);
}

#[test]
fn not_found_on_never_created_id() {
    let mut s = BookingService::new();
    assert_eq!(s.get_booking(9).unwrap_err(), Error::NotFound { id: 9 });
    assert_eq!(s.update_booking(9, payload("A", "B", "C", 1)).unwrap_err(), Error::NotFound {
        id: 9,
    });
    assert_eq!(s.delete_booking(9).unwrap_err(), Error::NotFound { id: 9 });
}

#[test]
fn not_found_on_deleted_id() {
    let mut s = BookingService::new();
    let id = s.add_booking(payload("Ann", "Dune", "19:00", 2)).unwrap().id;
    s.delete_booking(id).unwrap();
    assert_eq!(s.get_booking(id).unwrap_err(), Error::NotFound { id });
    assert_eq!(s.update_booking(id, payload("A", "B", "C", 1)).unwrap_err(), Error::NotFound {
        id,
    });
    assert_eq!(s.delete_booking(id).unwrap_err(), Error::NotFound { id });
}

#[test]
fn persistence_across_restart() {
    let mut s = BookingService::new();
    let a = s.add_booking(payload("Ann", "Dune", "19:00", 2)).unwrap();
    let b = s.add_booking(payload("Bo", "Alien", "21:00", 1)).unwrap();
    let mut s = s.restart();
    assert_eq!(s.next_free_id(), 2, "the counter continues where it left off");
    let ra = s.get_booking(a.id).unwrap();
    assert_fields(&ra, "Ann", "Dune", "19:00", 2);
    let rb = s.get_booking(b.id).unwrap();
    assert_fields(&rb, "Bo", "Alien", "21:00", 1);
    let c = s.add_booking(payload("Cy", "Dune", "19:00", 3)).unwrap();
    assert_eq!(c.id, 2);
}

#[test]
fn restart_keeps_deletions() {
    let mut s = BookingService::new();
    let id = s.add_booking(payload("Ann", "Dune", "19:00", 2)).unwrap().id;
    s.delete_booking(id).unwrap();
    let s = s.restart();
    assert_eq!(s.get_booking(id).unwrap_err(), Error::NotFound { id });
}

#[test]
fn oversized_payload_is_rejected_before_use() {
    let big = payload(&"x".repeat(2000), "Dune", "19:00", 2);
    assert!(!BookingService::payload_acceptable(&big));
    let ok = payload("Ann", "Dune", "19:00", 2);
    assert!(BookingService::payload_acceptable(&ok));
}

#[test]
fn underscore_get_booking_matches_store_state() {
    let mut s = BookingService::new();
    assert!(s._get_booking(&0).is_none());
    let id = s.add_booking(payload("Ann", "Dune", "19:00", 2)).unwrap().id;
    let found = s._get_booking(&id).unwrap();
    assert_fields(&found, "Ann", "Dune", "19:00", 2);
}

#[test]
fn do_insert_overwrites_in_place() {
    let mut s = BookingService::new();
    let id = s.add_booking(payload("Ann", "Dune", "19:00", 2)).unwrap().id;
    let replacement = Booking {
        id,
        customer_name: "Ann".to_string(),
        movie_name: "Alien".to_string(),
        showtime: "23:00".to_string(),
        num_tickets: 1,
    };
    s.do_insert(&replacement);
    let read = s.get_booking(id).unwrap();
    assert_fields(&read, "Ann", "Alien", "23:00", 1);
}
