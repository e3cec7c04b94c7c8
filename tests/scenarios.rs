use bus_booking_backend::entities::{
    AddPassengerToRoutePayload, AdminPayload, BookingPayload, PassengerPayload, ProposalPayload,
    RoutePayload, VotePayload,
};
use bus_booking_backend::error::ErrorKind;
use bus_booking_backend::store::TransitStore;

const NOW: u64 = 1_700_000_000;

fn admin(name: &str, email: &str) -> AdminPayload {
    AdminPayload { name: name.to_string(), email: email.to_string() }
}

fn passenger(name: &str, email: &str) -> PassengerPayload {
    PassengerPayload { name: name.to_string(), email: email.to_string() }
}

fn route(name: &str, admin_id: u64) -> RoutePayload {
    RoutePayload { name: name.to_string(), admin_id }
}

/// Admin 1, route 2, passenger 3.
fn seeded() -> TransitStore {
    let mut s = TransitStore::new();
    s.create_admin(admin("Jane Doe", "jane@example.com"), NOW).ok().unwrap();
    s.create_route(route("Route A", 1), NOW).ok().unwrap();
    s.create_passenger(passenger("John Smith", "john@example.com"), NOW).ok().unwrap();
    s
}

#[test]
fn create_admin_first_id_is_one() {
    let mut s = TransitStore::new();
    let a = s.create_admin(admin("Jane Doe", "jane@example.com"), NOW).ok().unwrap();
    assert_eq!(a.id, 1);
    assert_eq!(a.name, "Jane Doe");
    assert_eq!(a.email, "jane@example.com");
    assert_eq!(a.created_at, NOW);
    assert!(s.contains_admin(1));
    assert_eq!(s.last_id(), 1);
}

#[test]
fn create_route_gets_next_id_and_no_passengers() {
    let mut s = TransitStore::new();
    s.create_admin(admin("Jane Doe", "jane@example.com"), NOW).ok().unwrap();
    let r = s.create_route(route("Route A", 1), NOW).ok().unwrap();
    assert_eq!(r.id, 2);
    assert_eq!(r.admin_id, 1);
    assert!(r.passengers.is_empty());
    assert!(s.get_route(2).unwrap().passengers.is_empty());
}

#[test]
fn create_passenger_third_id() {
    let mut s = TransitStore::new();
    s.create_admin(admin("Jane Doe", "jane@example.com"), NOW).ok().unwrap();
    s.create_route(route("Route A", 1), NOW).ok().unwrap();
    let p = s.create_passenger(passenger("John Smith", "john@example.com"), NOW).ok().unwrap();
    assert_eq!(p.id, 3);
    assert_eq!(p.points, 0);
}

#[test]
fn book_route_fourth_id() {
    let mut s = seeded();
    let b = s
        .book_route(
            BookingPayload { route_id: 2, passenger_id: 3, amount_bits: 9.5f64.to_bits() },
            NOW,
        )
        .ok()
        .unwrap();
    assert_eq!(b.id, 4);
    assert_eq!(f64::from_bits(b.amount_bits), 9.5);
    assert!(s.contains_booking(4));
}

#[test]
fn propose_then_vote_for() {
    let mut s = seeded();
    s.book_route(BookingPayload { route_id: 2, passenger_id: 3, amount_bits: 9.5f64.to_bits() }, NOW)
        .ok()
        .unwrap();
    let p = s
        .propose_route(
            ProposalPayload {
                route_id: 2,
                proposer_id: 3,
                description: "Extend to downtown".to_string(),
            },
            NOW,
        )
        .ok()
        .unwrap();
    assert_eq!(p.id, 5);
    assert_eq!(p.votes_for, 0);
    assert_eq!(p.votes_against, 0);
    assert!(s.vote_on_proposal(VotePayload { proposal_id: 5, passenger_id: 3, vote: true }).is_ok());
    let p = s.get_proposal(5).unwrap();
    assert_eq!(p.votes_for, 1);
    assert_eq!(p.votes_against, 0);
}

#[test]
fn vote_against_and_repeat_votes_count() {
    let mut s = seeded();
    s.propose_route(
        ProposalPayload { route_id: 2, proposer_id: 3, description: "Later buses".to_string() },
        NOW,
    )
    .ok()
    .unwrap();
    assert!(s.vote_on_proposal(VotePayload { proposal_id: 4, passenger_id: 3, vote: false }).is_ok());
    assert!(s.vote_on_proposal(VotePayload { proposal_id: 4, passenger_id: 3, vote: false }).is_ok());
    let p = s.get_proposal(4).unwrap();
    assert_eq!(p.votes_for, 0);
    assert_eq!(p.votes_against, 2);
}

#[test]
fn rejections_of_each_kind() {
    let mut s = seeded();
    let e = s.create_admin(admin("", "x@x.com"), NOW).err().unwrap();
    assert_eq!(e.kind(), ErrorKind::EmptyFields);
    let e = s.create_route(route("Bad!!", 1), NOW).err().unwrap();
    assert_eq!(e.kind(), ErrorKind::InvalidName);
    let e = s
        .book_route(BookingPayload { route_id: 999, passenger_id: 3, amount_bits: 1.0f64.to_bits() }, NOW)
        .err()
        .unwrap();
    assert_eq!(e.kind(), ErrorKind::NotFound);
    assert_eq!(s.last_id(), 3);
}

#[test]
fn rejected_requests_issue_no_id() {
    let mut s = seeded();
    assert!(s.create_admin(admin("Jane Doe", "jane@example.com"), NOW).is_err());
    assert!(s.create_route(route("Route B", 42), NOW).is_err());
    assert!(s.propose_route(
        ProposalPayload { route_id: 2, proposer_id: 99, description: "x".to_string() },
        NOW
    )
    .is_err());
    assert_eq!(s.last_id(), 3);
    let r = s.create_route(route("Route B", 1), NOW).ok().unwrap();
    assert_eq!(r.id, 4);
}

#[test]
fn ids_increase_across_kinds() {
    let mut s = TransitStore::new();
    let a = s.create_admin(admin("Ann", "ann@example.org"), NOW).ok().unwrap();
    let p = s.create_passenger(passenger("Bo", "bo@example.org"), NOW).ok().unwrap();
    let r = s.create_route(route("Line", a.id), NOW).ok().unwrap();
    assert!(a.id < p.id && p.id < r.id);
    // The same email may be used once among admins and once among passengers.
    let q = s.create_passenger(passenger("Ann", "ann@example.org"), NOW).ok().unwrap();
    assert!(r.id < q.id);
}

#[test]
fn admin_email_reuse_already_exists() {
    let mut s = seeded();
    let e = s.create_admin(admin("Other Person", "jane@example.com"), NOW).err().unwrap();
    assert_eq!(e.kind(), ErrorKind::AlreadyExists);
    // Emptiness is checked before uniqueness.
    let e = s.create_admin(admin("", "jane@example.com"), NOW).err().unwrap();
    assert_eq!(e.kind(), ErrorKind::EmptyFields);
}

#[test]
fn passenger_email_reuse_already_exists() {
    let mut s = seeded();
    let e = s.create_passenger(passenger("Someone Else", "john@example.com"), NOW).err().unwrap();
    assert_eq!(e.kind(), ErrorKind::AlreadyExists);
}

#[test]
fn reads_leave_the_store_as_it_was() {
    let s = seeded();
    for _ in 0..3 {
        assert!(s.contains_route(2));
        assert!(!s.contains_route(3));
        assert!(s.get_passenger(3).is_some());
        assert!(s.get_admin(2).is_none());
    }
    assert_eq!(s.last_id(), 3);
    assert_eq!(s.get_admin(1).unwrap().email, "jane@example.com");
}

#[test]
fn add_passenger_twice_lists_once() {
    let mut s = seeded();
    let first = s.add_passenger_to_route(AddPassengerToRoutePayload { route_id: 2, passenger_id: 3 });
    assert!(first.is_ok());
    let second = s.add_passenger_to_route(AddPassengerToRoutePayload { route_id: 2, passenger_id: 3 });
    assert_eq!(second.err().unwrap().kind(), ErrorKind::AlreadyExists);
    assert_eq!(s.get_route(2).unwrap().passengers, vec![3]);
}

#[test]
fn add_passenger_unknown_route_or_passenger() {
    let mut s = seeded();
    let e = s.add_passenger_to_route(AddPassengerToRoutePayload { route_id: 7, passenger_id: 3 });
    assert_eq!(e.err().unwrap().kind(), ErrorKind::NotFound);
    let e = s.add_passenger_to_route(AddPassengerToRoutePayload { route_id: 2, passenger_id: 1 });
    assert_eq!(e.err().unwrap().kind(), ErrorKind::NotFound);
    let e = s.vote_on_proposal(VotePayload { proposal_id: 2, passenger_id: 3, vote: true });
    assert_eq!(e.err().unwrap().kind(), ErrorKind::NotFound);
}

#[test]
fn invalid_email_and_name_on_creation() {
    let mut s = TransitStore::new();
    let e = s.create_admin(admin("Jane Doe", "jane.example.com"), NOW).err().unwrap();
    assert_eq!(e.kind(), ErrorKind::InvalidEmail);
    let e = s.create_passenger(passenger("J4ne", "jane@example.com"), NOW).err().unwrap();
    assert_eq!(e.kind(), ErrorKind::InvalidName);
    assert_eq!(s.last_id(), 0);
}
