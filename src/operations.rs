use vstd::prelude::*;

use crate::entities::{
    AddPassengerToRoutePayload,
    Admin,
    AdminPayload,
    Booking,
    BookingPayload,
    Passenger,
    PassengerPayload,
    Proposal,
    ProposalPayload,
    Route,
    RoutePayload,
    VotePayload,
};
use crate::error::{Error, ErrorKind};
use crate::store::{Keyed, TransitStore, position_of};
use crate::validation::{validate_email, validate_name};

verus! {

/// Whether `ids` holds `x`, by a linear scan.
fn lists(ids: &Vec<u64>, x: u64) -> (r: bool)
    ensures
        r == ids@.contains(x),
{
    let mut i: usize = 0;
    while i < ids.len()
        invariant
            i <= ids@.len(),
            forall|j: int| 0 <= j < i ==> ids@[j] != x,
        decreases ids@.len() - i,
    {
        if ids[i] == x {
            assert(ids@[i as int] == x);
            return true;
        }
        i += 1;
    }
    false
}

impl TransitStore {
    /// Registers an administrator. Checks, in order: both fields non-empty,
    /// the email well formed, the email not used by another admin, the name
    /// well formed. On success the admin gets the next id and is stored; on
    /// failure nothing changes.
    pub fn create_admin(&mut self, payload: AdminPayload, now: u64) -> (r: Result<Admin, Error>)
        requires
            old(self)@.wf(),
            old(self)@.last_id < u64::MAX,
        ensures
            final(self)@.wf(),
            match old(self)@.admin_rejection(payload.name@, payload.email@) {
                Some(k) => r is Err && r->Err_0.spec_kind() == k && final(self)@ == old(self)@,
                None => r is Ok && r->Ok_0@ == old(self)@.new_admin(
                    payload.name@,
                    payload.email@,
                    now,
                ) && final(self)@ == old(self)@.with_admin(r->Ok_0@),
            },
            r is Ok ==> old(self)@.ids_below(r->Ok_0.id),
    {
        if payload.name.as_str().is_empty() || payload.email.as_str().is_empty() {
            return Err(Error::new(ErrorKind::EmptyFields, "Name and email are required"));
        }
        if let Err(e) = validate_email(payload.email.as_str()) {
            return Err(e);
        }
        if self.admin_email_taken(&payload.email) {
            return Err(Error::new(ErrorKind::AlreadyExists, "Email address already in use"));
        }
        if let Err(e) = validate_name(payload.name.as_str()) {
            return Err(e);
        }
        proof {
            self@.lemma_fresh_id_exceeds();
            self@.lemma_with_admin_wf(payload.name@, payload.email@, now);
        }
        let ghost before = self@;
        let id = self.next_id();
        let admin = Admin { id, name: payload.name, email: payload.email, created_at: now };
        self.admins.push(admin.duplicate());
        assert(self@.admins =~= before.admins.push(admin@));
        Ok(admin)
    }

    /// Registers a passenger with zero points. Checks, in order: both fields
    /// non-empty, the email well formed, the email not used by another
    /// passenger, the name well formed. On failure nothing changes.
    pub fn create_passenger(&mut self, payload: PassengerPayload, now: u64) -> (r: Result<
        Passenger,
        Error,
    >)
        requires
            old(self)@.wf(),
            old(self)@.last_id < u64::MAX,
        ensures
            final(self)@.wf(),
            match old(self)@.passenger_rejection(payload.name@, payload.email@) {
                Some(k) => r is Err && r->Err_0.spec_kind() == k && final(self)@ == old(self)@,
                None => r is Ok && r->Ok_0@ == old(self)@.new_passenger(
                    payload.name@,
                    payload.email@,
                    now,
                ) && final(self)@ == old(self)@.with_passenger(r->Ok_0@),
            },
            r is Ok ==> old(self)@.ids_below(r->Ok_0.id),
    {
        if payload.name.as_str().is_empty() || payload.email.as_str().is_empty() {
            return Err(Error::new(ErrorKind::EmptyFields, "Name and email are required"));
        }
        if let Err(e) = validate_email(payload.email.as_str()) {
            return Err(e);
        }
        if self.passenger_email_taken(&payload.email) {
            return Err(Error::new(ErrorKind::AlreadyExists, "Email address already in use"));
        }
        if let Err(e) = validate_name(payload.name.as_str()) {
            return Err(e);
        }
        proof {
            self@.lemma_fresh_id_exceeds();
            self@.lemma_with_passenger_wf(payload.name@, payload.email@, now);
        }
        let ghost before = self@;
        let id = self.next_id();
        let passenger = Passenger {
            id,
            name: payload.name,
            email: payload.email,
            points: 0,
            created_at: now,
        };
        self.passengers.push(passenger.duplicate());
        assert(self@.passengers =~= before.passengers.push(passenger@));
        Ok(passenger)
    }

    /// Creates a route with no passengers. Checks, in order: the name well
    /// formed, the admin existing. On failure nothing changes.
    pub fn create_route(&mut self, payload: RoutePayload, now: u64) -> (r: Result<Route, Error>)
        requires
            old(self)@.wf(),
            old(self)@.last_id < u64::MAX,
        ensures
            final(self)@.wf(),
            match old(self)@.route_rejection(payload.name@, payload.admin_id) {
                Some(k) => r is Err && r->Err_0.spec_kind() == k && final(self)@ == old(self)@,
                None => r is Ok && r->Ok_0@ == old(self)@.new_route(
                    payload.name@,
                    payload.admin_id,
                    now,
                ) && final(self)@ == old(self)@.with_route(r->Ok_0@),
            },
            r is Ok ==> old(self)@.ids_below(r->Ok_0.id),
    {
        if let Err(e) = validate_name(payload.name.as_str()) {
            return Err(e);
        }
        if !self.contains_admin(payload.admin_id) {
            return Err(Error::new(ErrorKind::NotFound, "Admin not found"));
        }
        proof {
            self@.lemma_fresh_id_exceeds();
            self@.lemma_with_route_wf(payload.name@, payload.admin_id, now);
        }
        let ghost before = self@;
        let id = self.next_id();
        let route = Route {
            id,
            name: payload.name,
            admin_id: payload.admin_id,
            passengers: Vec::new(),
            created_at: now,
        };
        self.routes.push(route.duplicate());
        assert(route@.passengers =~= Seq::<u64>::empty());
        assert(self@.routes =~= before.routes.push(route@));
        Ok(route)
    }

    /// Books a route for a passenger. Checks, in order: the route existing,
    /// the passenger existing. A passenger may book the same route any number
    /// of times. On failure nothing changes.
    pub fn book_route(&mut self, payload: BookingPayload, now: u64) -> (r: Result<Booking, Error>)
        requires
            old(self)@.wf(),
            old(self)@.last_id < u64::MAX,
        ensures
            final(self)@.wf(),
            match old(self)@.booking_rejection(payload.route_id, payload.passenger_id) {
                Some(k) => r is Err && r->Err_0.spec_kind() == k && final(self)@ == old(self)@,
                None => r is Ok && r->Ok_0@ == old(self)@.new_booking(
                    payload.route_id,
                    payload.passenger_id,
                    payload.amount_bits,
                    now,
                ) && final(self)@ == old(self)@.with_booking(r->Ok_0@),
            },
            r is Ok ==> old(self)@.ids_below(r->Ok_0.id),
    {
        if !self.contains_route(payload.route_id) {
            return Err(Error::new(ErrorKind::NotFound, "Route not found"));
        }
        if !self.contains_passenger(payload.passenger_id) {
            return Err(Error::new(ErrorKind::NotFound, "Passenger not found"));
        }
        proof {
            self@.lemma_fresh_id_exceeds();
            self@.lemma_with_booking_wf(
                payload.route_id,
                payload.passenger_id,
                payload.amount_bits,
                now,
            );
        }
        let ghost before = self@;
        let id = self.next_id();
        let booking = Booking {
            id,
            route_id: payload.route_id,
            passenger_id: payload.passenger_id,
            amount_bits: payload.amount_bits,
            created_at: now,
        };
        self.bookings.push(booking.duplicate());
        assert(self@.bookings =~= before.bookings.push(booking@));
        Ok(booking)
    }

    /// Records a proposal about a route with both tallies at zero. Checks, in
    /// order: the route existing, the proposer existing. On failure nothing
    /// changes.
    pub fn propose_route(&mut self, payload: ProposalPayload, now: u64) -> (r: Result<
        Proposal,
        Error,
    >)
        requires
            old(self)@.wf(),
            old(self)@.last_id < u64::MAX,
        ensures
            final(self)@.wf(),
            match old(self)@.proposal_rejection(payload.route_id, payload.proposer_id) {
                Some(k) => r is Err && r->Err_0.spec_kind() == k && final(self)@ == old(self)@,
                None => r is Ok && r->Ok_0@ == old(self)@.new_proposal(
                    payload.route_id,
                    payload.proposer_id,
                    payload.description@,
                    now,
                ) && final(self)@ == old(self)@.with_proposal(r->Ok_0@),
            },
            r is Ok ==> old(self)@.ids_below(r->Ok_0.id),
    {
        if !self.contains_route(payload.route_id) {
            return Err(Error::new(ErrorKind::NotFound, "Route not found"));
        }
        if !self.contains_passenger(payload.proposer_id) {
            return Err(Error::new(ErrorKind::NotFound, "Proposer not found"));
        }
        proof {
            self@.lemma_fresh_id_exceeds();
            self@.lemma_with_proposal_wf(
                payload.route_id,
                payload.proposer_id,
                payload.description@,
                now,
            );
        }
        let ghost before = self@;
        let id = self.next_id();
        let proposal = Proposal {
            id,
            route_id: payload.route_id,
            proposer_id: payload.proposer_id,
            description: payload.description,
            votes_for: 0,
            votes_against: 0,
            created_at: now,
        };
        self.proposals.push(proposal.duplicate());
        assert(self@.proposals =~= before.proposals.push(proposal@));
        Ok(proposal)
    }

    /// Counts a vote on a proposal: one more in favour when `vote` is true,
    /// one more against otherwise. Checks, in order: the proposal existing,
    /// the passenger existing. Repeat votes by one passenger are counted. On
    /// failure nothing changes.
    pub fn vote_on_proposal(&mut self, payload: VotePayload) -> (r: Result<(), Error>)
        requires
            old(self)@.wf(),
            old(self)@.vote_fits(payload.proposal_id, payload.vote),
        ensures
            final(self)@.wf(),
            match old(self)@.vote_rejection(payload.proposal_id, payload.passenger_id) {
                Some(k) => r is Err && r->Err_0.spec_kind() == k && final(self)@ == old(self)@,
                None => r is Ok && final(self)@ == old(self)@.with_vote(
                    payload.proposal_id,
                    payload.vote,
                ),
            },
    {
        let pos = position_of(&self.proposals, payload.proposal_id);
        let i = match pos {
            Some(i) => i,
            None => {
                assert forall|j: int| 0 <= j < self@.proposal_ids().len() implies self@.proposal_ids()[j]
                    != payload.proposal_id by {
                    assert(self.proposals@[j].spec_id() != payload.proposal_id);
                }
                return Err(Error::new(ErrorKind::NotFound, "Proposal not found"));
            },
        };
        assert(self@.proposal_ids()[i as int] == payload.proposal_id);
        if !self.contains_passenger(payload.passenger_id) {
            return Err(Error::new(ErrorKind::NotFound, "Passenger not found"));
        }
        proof {
            self@.lemma_with_vote_wf(payload.proposal_id, payload.vote);
        }
        let ghost before = self@;
        let mut proposal = self.proposals[i].duplicate();
        assert(before.proposals[i as int].id == payload.proposal_id);
        if payload.vote {
            proposal.votes_for = proposal.votes_for + 1;
        } else {
            proposal.votes_against = proposal.votes_against + 1;
        }
        self.proposals.set(i, proposal);
        proof {
            let target = before.with_vote(payload.proposal_id, payload.vote);
            assert forall|j: int| 0 <= j < self@.proposals.len() implies self@.proposals[j]
                == target.proposals[j] by {
                if j != i {
                    assert(before.proposal_ids()[j] != before.proposal_ids()[i as int]);
                }
            }
            assert(self@.proposals =~= target.proposals);
        }
        Ok(())
    }

    /// Adds a passenger to the end of a route's list. Checks, in order: the
    /// route existing, the passenger existing, the passenger not yet on the
    /// route. On failure nothing changes.
    pub fn add_passenger_to_route(&mut self, payload: AddPassengerToRoutePayload) -> (r: Result<
        (),
        Error,
    >)
        requires
            old(self)@.wf(),
        ensures
            final(self)@.wf(),
            match old(self)@.join_rejection(payload.route_id, payload.passenger_id) {
                Some(k) => r is Err && r->Err_0.spec_kind() == k && final(self)@ == old(self)@,
                None => r is Ok && final(self)@ == old(self)@.with_route_passenger(
                    payload.route_id,
                    payload.passenger_id,
                ),
            },
    {
        let pos = position_of(&self.routes, payload.route_id);
        let i = match pos {
            Some(i) => i,
            None => {
                assert forall|j: int| 0 <= j < self@.route_ids().len() implies self@.route_ids()[j]
                    != payload.route_id by {
                    assert(self.routes@[j].spec_id() != payload.route_id);
                }
                return Err(Error::new(ErrorKind::NotFound, "Route not found"));
            },
        };
        assert(self@.route_ids()[i as int] == payload.route_id);
        if !self.contains_passenger(payload.passenger_id) {
            return Err(Error::new(ErrorKind::NotFound, "Passenger not found"));
        }
        let ghost before = self@;
        proof {
            assert forall|j: int| 0 <= j < before.routes.len() && j != i implies #[trigger] before.routes[j].id
                != payload.route_id by {
                assert(before.route_ids()[j] != before.route_ids()[i as int]);
            }
        }
        if lists(&self.routes[i].passengers, payload.passenger_id) {
            assert(before.on_route(payload.route_id, payload.passenger_id));
            return Err(Error::new(ErrorKind::AlreadyExists, "Passenger is already on this route"));
        }
        proof {
            before.lemma_with_route_passenger_wf(payload.route_id, payload.passenger_id);
        }
        let mut route = self.routes[i].duplicate();
        route.passengers.push(payload.passenger_id);
        self.routes.set(i, route);
        proof {
            let target = before.with_route_passenger(payload.route_id, payload.passenger_id);
            assert forall|j: int| 0 <= j < self@.routes.len() implies self@.routes[j]
                == target.routes[j] by {
                if j == i {
                    assert(self@.routes[j].passengers =~= target.routes[j].passengers);
                }
            }
            assert(self@.routes =~= target.routes);
        }
        Ok(())
    }
}

} // verus!
