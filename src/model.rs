use vstd::prelude::*;

use crate::entities::{AdminView, BookingView, PassengerView, ProposalView, RouteView};
use crate::error::ErrorKind;
use crate::validation::{valid_email, valid_name};

verus! {

/// The state of the store as mathematics: the last identifier issued and one
/// sequence per entity kind, in order of creation.
pub struct StoreModel {
    pub last_id: u64,
    pub admins: Seq<AdminView>,
    pub routes: Seq<RouteView>,
    pub passengers: Seq<PassengerView>,
    pub bookings: Seq<BookingView>,
    pub proposals: Seq<ProposalView>,
}

/// Ids strictly increasing in order of creation, none zero, none above `last`.
pub open spec fn ids_ordered(ids: Seq<u64>, last: u64) -> bool {
    &&& forall|i: int, j: int| 0 <= i < j < ids.len() ==> ids[i] < ids[j]
    &&& forall|i: int| 0 <= i < ids.len() ==> 0 < #[trigger] ids[i] <= last
}

impl StoreModel {
    pub open spec fn empty() -> StoreModel {
        StoreModel {
            last_id: 0,
            admins: Seq::empty(),
            routes: Seq::empty(),
            passengers: Seq::empty(),
            bookings: Seq::empty(),
            proposals: Seq::empty(),
        }
    }

    pub open spec fn admin_ids(self) -> Seq<u64> {
        self.admins.map_values(|a: AdminView| a.id)
    }

    pub open spec fn route_ids(self) -> Seq<u64> {
        self.routes.map_values(|r: RouteView| r.id)
    }

    pub open spec fn passenger_ids(self) -> Seq<u64> {
        self.passengers.map_values(|p: PassengerView| p.id)
    }

    pub open spec fn booking_ids(self) -> Seq<u64> {
        self.bookings.map_values(|b: BookingView| b.id)
    }

    pub open spec fn proposal_ids(self) -> Seq<u64> {
        self.proposals.map_values(|p: ProposalView| p.id)
    }

    pub open spec fn has_admin(self, id: u64) -> bool {
        self.admin_ids().contains(id)
    }

    pub open spec fn has_route(self, id: u64) -> bool {
        self.route_ids().contains(id)
    }

    pub open spec fn has_passenger(self, id: u64) -> bool {
        self.passenger_ids().contains(id)
    }

    pub open spec fn has_booking(self, id: u64) -> bool {
        self.booking_ids().contains(id)
    }

    pub open spec fn has_proposal(self, id: u64) -> bool {
        self.proposal_ids().contains(id)
    }

    pub open spec fn admin_email_used(self, email: Seq<char>) -> bool {
        exists|i: int| 0 <= i < self.admins.len() && #[trigger] self.admins[i].email == email
    }

    pub open spec fn passenger_email_used(self, email: Seq<char>) -> bool {
        exists|i: int| 0 <= i < self.passengers.len() && #[trigger] self.passengers[i].email == email
    }

    /// The route `route_id` exists and lists `passenger_id`.
    pub open spec fn on_route(self, route_id: u64, passenger_id: u64) -> bool {
        exists|i: int|
            0 <= i < self.routes.len() && #[trigger] self.routes[i].id == route_id
                && self.routes[i].passengers.contains(passenger_id)
    }

    /// Every id held anywhere in the store is below `bound`.
    pub open spec fn ids_below(self, bound: u64) -> bool {
        &&& forall|i: int| 0 <= i < self.admins.len() ==> #[trigger] self.admins[i].id < bound
        &&& forall|i: int| 0 <= i < self.routes.len() ==> #[trigger] self.routes[i].id < bound
        &&& forall|i: int|
            0 <= i < self.passengers.len() ==> #[trigger] self.passengers[i].id < bound
        &&& forall|i: int| 0 <= i < self.bookings.len() ==> #[trigger] self.bookings[i].id < bound
        &&& forall|i: int|
            0 <= i < self.proposals.len() ==> #[trigger] self.proposals[i].id < bound
    }

    pub open spec fn admins_wf(self) -> bool {
        &&& ids_ordered(self.admin_ids(), self.last_id)
        &&& forall|i: int|
            0 <= i < self.admins.len() ==> valid_email(#[trigger] self.admins[i].email)
                && valid_name(self.admins[i].name)
        &&& forall|i: int, j: int|
            0 <= i < j < self.admins.len() ==> self.admins[i].email != self.admins[j].email
    }

    pub open spec fn passengers_wf(self) -> bool {
        &&& ids_ordered(self.passenger_ids(), self.last_id)
        &&& forall|i: int|
            0 <= i < self.passengers.len() ==> valid_email(#[trigger] self.passengers[i].email)
                && valid_name(self.passengers[i].name)
        &&& forall|i: int, j: int|
            0 <= i < j < self.passengers.len() ==> self.passengers[i].email
                != self.passengers[j].email
    }

    pub open spec fn routes_wf(self) -> bool {
        &&& ids_ordered(self.route_ids(), self.last_id)
        &&& forall|i: int|
            0 <= i < self.routes.len() ==> valid_name(#[trigger] self.routes[i].name)
                && self.has_admin(self.routes[i].admin_id) && self.routes[i].passengers.no_duplicates()
        &&& forall|i: int, k: int|
            0 <= i < self.routes.len() && 0 <= k < self.routes[i].passengers.len()
                ==> self.has_passenger(#[trigger] self.routes[i].passengers[k])
    }

    pub open spec fn bookings_wf(self) -> bool {
        &&& ids_ordered(self.booking_ids(), self.last_id)
        &&& forall|i: int|
            0 <= i < self.bookings.len() ==> self.has_route(#[trigger] self.bookings[i].route_id)
                && self.has_passenger(self.bookings[i].passenger_id)
    }

    pub open spec fn proposals_wf(self) -> bool {
        &&& ids_ordered(self.proposal_ids(), self.last_id)
        &&& forall|i: int|
            0 <= i < self.proposals.len() ==> self.has_route(#[trigger] self.proposals[i].route_id)
                && self.has_passenger(self.proposals[i].proposer_id)
    }

    /// Ids ordered and in range; emails valid and unique per collection; names
    /// valid; every reference between entities resolves; no passenger twice on
    /// a route.
    pub open spec fn wf(self) -> bool {
        &&& self.admins_wf()
        &&& self.passengers_wf()
        &&& self.routes_wf()
        &&& self.bookings_wf()
        &&& self.proposals_wf()
    }

    /// The id the next accepted creation receives.
    pub open spec fn fresh_id(self) -> u64 {
        (self.last_id + 1) as u64
    }

    /// Why `create_admin` refuses a payload, in the order of its checks.
    pub open spec fn admin_rejection(self, name: Seq<char>, email: Seq<char>) -> Option<ErrorKind> {
        if name.len() == 0 || email.len() == 0 {
            Some(ErrorKind::EmptyFields)
        } else if !valid_email(email) {
            Some(ErrorKind::InvalidEmail)
        } else if self.admin_email_used(email) {
            Some(ErrorKind::AlreadyExists)
        } else if !valid_name(name) {
            Some(ErrorKind::InvalidName)
        } else {
            None
        }
    }

    pub open spec fn new_admin(self, name: Seq<char>, email: Seq<char>, now: u64) -> AdminView {
        AdminView { id: self.fresh_id(), name, email, created_at: now }
    }

    pub open spec fn with_admin(self, a: AdminView) -> StoreModel {
        StoreModel { last_id: a.id, admins: self.admins.push(a), ..self }
    }

    /// Why `create_passenger` refuses a payload, in the order of its checks.
    pub open spec fn passenger_rejection(self, name: Seq<char>, email: Seq<char>) -> Option<
        ErrorKind,
    > {
        if name.len() == 0 || email.len() == 0 {
            Some(ErrorKind::EmptyFields)
        } else if !valid_email(email) {
            Some(ErrorKind::InvalidEmail)
        } else if self.passenger_email_used(email) {
            Some(ErrorKind::AlreadyExists)
        } else if !valid_name(name) {
            Some(ErrorKind::InvalidName)
        } else {
            None
        }
    }

    pub open spec fn new_passenger(self, name: Seq<char>, email: Seq<char>, now: u64) -> PassengerView {
        PassengerView { id: self.fresh_id(), name, email, points: 0, created_at: now }
    }

    pub open spec fn with_passenger(self, p: PassengerView) -> StoreModel {
        StoreModel { last_id: p.id, passengers: self.passengers.push(p), ..self }
    }

    /// Why `create_route` refuses a payload, in the order of its checks.
    pub open spec fn route_rejection(self, name: Seq<char>, admin_id: u64) -> Option<ErrorKind> {
        if !valid_name(name) {
            Some(ErrorKind::InvalidName)
        } else if !self.has_admin(admin_id) {
            Some(ErrorKind::NotFound)
        } else {
            None
        }
    }

    pub open spec fn new_route(self, name: Seq<char>, admin_id: u64, now: u64) -> RouteView {
        RouteView { id: self.fresh_id(), name, admin_id, passengers: Seq::empty(), created_at: now }
    }

    pub open spec fn with_route(self, r: RouteView) -> StoreModel {
        StoreModel { last_id: r.id, routes: self.routes.push(r), ..self }
    }

    /// Why `book_route` refuses a payload, in the order of its checks.
    pub open spec fn booking_rejection(self, route_id: u64, passenger_id: u64) -> Option<ErrorKind> {
        if !self.has_route(route_id) || !self.has_passenger(passenger_id) {
            Some(ErrorKind::NotFound)
        } else {
            None
        }
    }

    pub open spec fn new_booking(
        self,
        route_id: u64,
        passenger_id: u64,
        amount_bits: u64,
        now: u64,
    ) -> BookingView {
        BookingView { id: self.fresh_id(), route_id, passenger_id, amount_bits, created_at: now }
    }

    pub open spec fn with_booking(self, b: BookingView) -> StoreModel {
        StoreModel { last_id: b.id, bookings: self.bookings.push(b), ..self }
    }

    /// Why `propose_route` refuses a payload, in the order of its checks.
    pub open spec fn proposal_rejection(self, route_id: u64, proposer_id: u64) -> Option<ErrorKind> {
        if !self.has_route(route_id) || !self.has_passenger(proposer_id) {
            Some(ErrorKind::NotFound)
        } else {
            None
        }
    }

    pub open spec fn new_proposal(
        self,
        route_id: u64,
        proposer_id: u64,
        description: Seq<char>,
        now: u64,
    ) -> ProposalView {
        ProposalView {
            id: self.fresh_id(),
            route_id,
            proposer_id,
            description,
            votes_for: 0,
            votes_against: 0,
            created_at: now,
        }
    }

    pub open spec fn with_proposal(self, p: ProposalView) -> StoreModel {
        StoreModel { last_id: p.id, proposals: self.proposals.push(p), ..self }
    }

    /// Why `vote_on_proposal` refuses a payload, in the order of its checks.
    pub open spec fn vote_rejection(self, proposal_id: u64, passenger_id: u64) -> Option<ErrorKind> {
        if !self.has_proposal(proposal_id) || !self.has_passenger(passenger_id) {
            Some(ErrorKind::NotFound)
        } else {
            None
        }
    }

    /// The tally a vote raises has room for one more.
    pub open spec fn vote_fits(self, proposal_id: u64, vote: bool) -> bool {
        forall|i: int|
            0 <= i < self.proposals.len() && #[trigger] self.proposals[i].id == proposal_id ==> if vote {
                self.proposals[i].votes_for < u64::MAX
            } else {
                self.proposals[i].votes_against < u64::MAX
            }
    }

    pub open spec fn counted(p: ProposalView, vote: bool) -> ProposalView {
        if vote {
            ProposalView { votes_for: (p.votes_for + 1) as u64, ..p }
        } else {
            ProposalView { votes_against: (p.votes_against + 1) as u64, ..p }
        }
    }

    /// The store after a vote on `proposal_id`.
    pub open spec fn with_vote(self, proposal_id: u64, vote: bool) -> StoreModel {
        StoreModel {
            proposals: self.proposals.map_values(
                |p: ProposalView|
                    if p.id == proposal_id {
                        Self::counted(p, vote)
                    } else {
                        p
                    },
            ),
            ..self
        }
    }

    /// Why `add_passenger_to_route` refuses a payload, in the order of its checks.
    pub open spec fn join_rejection(self, route_id: u64, passenger_id: u64) -> Option<ErrorKind> {
        if !self.has_route(route_id) || !self.has_passenger(passenger_id) {
            Some(ErrorKind::NotFound)
        } else if self.on_route(route_id, passenger_id) {
            Some(ErrorKind::AlreadyExists)
        } else {
            None
        }
    }

    /// The store after `passenger_id` joins route `route_id`.
    pub open spec fn with_route_passenger(self, route_id: u64, passenger_id: u64) -> StoreModel {
        StoreModel {
            routes: self.routes.map_values(
                |r: RouteView|
                    if r.id == route_id {
                        RouteView { passengers: r.passengers.push(passenger_id), ..r }
                    } else {
                        r
                    },
            ),
            ..self
        }
    }
}

/// Raising the bound keeps a sequence of ids ordered.
pub proof fn lemma_ids_raise(ids: Seq<u64>, last: u64, new_last: u64)
    requires
        ids_ordered(ids, last),
        last <= new_last,
    ensures
        ids_ordered(ids, new_last),
{
}

/// Appending the next fresh id keeps a sequence of ids ordered.
pub proof fn lemma_ids_push(ids: Seq<u64>, last: u64)
    requires
        ids_ordered(ids, last),
        last < u64::MAX,
    ensures
        ids_ordered(ids.push((last + 1) as u64), (last + 1) as u64),
{
    let n = ids.push((last + 1) as u64);
    assert forall|i: int, j: int| 0 <= i < j < n.len() implies n[i] < n[j] by {
        if j == ids.len() {
            assert(ids[i] <= last);
        }
    }
}

/// An id held by a sequence is still held after an append.
pub proof fn lemma_contains_push(ids: Seq<u64>, v: u64, x: u64)
    requires
        ids.contains(x),
    ensures
        ids.push(v).contains(x),
{
    let i = choose|i: int| 0 <= i < ids.len() && ids[i] == x;
    assert(ids.push(v)[i] == x);
}

impl StoreModel {
    /// Every id held by the store is below the next fresh id.
    pub proof fn lemma_fresh_id_exceeds(self)
        requires
            self.wf(),
            self.last_id < u64::MAX,
        ensures
            self.ids_below(self.fresh_id()),
    {
        assert forall|i: int| 0 <= i < self.admins.len() implies #[trigger] self.admins[i].id
            < self.fresh_id() by {
            assert(self.admin_ids()[i] <= self.last_id);
        }
        assert forall|i: int| 0 <= i < self.routes.len() implies #[trigger] self.routes[i].id
            < self.fresh_id() by {
            assert(self.route_ids()[i] <= self.last_id);
        }
        assert forall|i: int| 0 <= i < self.passengers.len() implies #[trigger] self.passengers[
            i].id < self.fresh_id() by {
            assert(self.passenger_ids()[i] <= self.last_id);
        }
        assert forall|i: int| 0 <= i < self.bookings.len() implies #[trigger] self.bookings[i].id
            < self.fresh_id() by {
            assert(self.booking_ids()[i] <= self.last_id);
        }
        assert forall|i: int| 0 <= i < self.proposals.len() implies #[trigger] self.proposals[
            i].id < self.fresh_id() by {
            assert(self.proposal_ids()[i] <= self.last_id);
        }
    }

    /// Moving to a later counter value keeps the id orders of all collections.
    pub proof fn lemma_raise_all(self, new_last: u64)
        requires
            self.wf(),
            self.last_id <= new_last,
        ensures
            ids_ordered(self.admin_ids(), new_last),
            ids_ordered(self.route_ids(), new_last),
            ids_ordered(self.passenger_ids(), new_last),
            ids_ordered(self.booking_ids(), new_last),
            ids_ordered(self.proposal_ids(), new_last),
    {
        lemma_ids_raise(self.admin_ids(), self.last_id, new_last);
        lemma_ids_raise(self.route_ids(), self.last_id, new_last);
        lemma_ids_raise(self.passenger_ids(), self.last_id, new_last);
        lemma_ids_raise(self.booking_ids(), self.last_id, new_last);
        lemma_ids_raise(self.proposal_ids(), self.last_id, new_last);
    }

    pub proof fn lemma_with_admin_wf(self, name: Seq<char>, email: Seq<char>, now: u64)
        requires
            self.wf(),
            self.last_id < u64::MAX,
            self.admin_rejection(name, email) is None,
        ensures
            self.with_admin(self.new_admin(name, email, now)).wf(),
    {
        let a = self.new_admin(name, email, now);
        let n = self.with_admin(a);
        self.lemma_raise_all(n.last_id);
        lemma_ids_push(self.admin_ids(), self.last_id);
        assert(n.admin_ids() =~= self.admin_ids().push(a.id));
        assert forall|x: u64| self.has_admin(x) implies n.has_admin(x) by {
            lemma_contains_push(self.admin_ids(), a.id, x);
        }
        assert forall|i: int, j: int| 0 <= i < j < n.admins.len() implies n.admins[i].email
            != n.admins[j].email by {
            if j == self.admins.len() {
                assert(self.admins[i].email == n.admins[i].email);
            }
        }
        assert(n.admins_wf());
        assert(n.passengers_wf());
        assert(n.routes_wf());
        assert(n.bookings_wf());
        assert(n.proposals_wf());
    }

    pub proof fn lemma_with_passenger_wf(self, name: Seq<char>, email: Seq<char>, now: u64)
        requires
            self.wf(),
            self.last_id < u64::MAX,
            self.passenger_rejection(name, email) is None,
        ensures
            self.with_passenger(self.new_passenger(name, email, now)).wf(),
    {
        let p = self.new_passenger(name, email, now);
        let n = self.with_passenger(p);
        self.lemma_raise_all(n.last_id);
        lemma_ids_push(self.passenger_ids(), self.last_id);
        assert(n.passenger_ids() =~= self.passenger_ids().push(p.id));
        assert forall|x: u64| self.has_passenger(x) implies n.has_passenger(x) by {
            lemma_contains_push(self.passenger_ids(), p.id, x);
        }
        assert forall|i: int, j: int| 0 <= i < j < n.passengers.len() implies n.passengers[i].email
            != n.passengers[j].email by {
            if j == self.passengers.len() {
                assert(self.passengers[i].email == n.passengers[i].email);
            }
        }
        assert(n.admins_wf());
        assert(n.passengers_wf());
        assert(n.routes_wf());
        assert(n.bookings_wf());
        assert(n.proposals_wf());
    }

    pub proof fn lemma_with_route_wf(self, name: Seq<char>, admin_id: u64, now: u64)
        requires
            self.wf(),
            self.last_id < u64::MAX,
            self.route_rejection(name, admin_id) is None,
        ensures
            self.with_route(self.new_route(name, admin_id, now)).wf(),
    {
        let r = self.new_route(name, admin_id, now);
        let n = self.with_route(r);
        self.lemma_raise_all(n.last_id);
        lemma_ids_push(self.route_ids(), self.last_id);
        assert(n.route_ids() =~= self.route_ids().push(r.id));
        assert forall|x: u64| self.has_route(x) implies n.has_route(x) by {
            lemma_contains_push(self.route_ids(), r.id, x);
        }
        assert(r.passengers.no_duplicates());
        assert forall|i: int| 0 <= i < n.routes.len() implies valid_name(#[trigger] n.routes[i].name)
            && n.has_admin(n.routes[i].admin_id) && n.routes[i].passengers.no_duplicates() by {
            if i < self.routes.len() {
                assert(n.routes[i] == self.routes[i]);
            }
        }
        assert forall|i: int, k: int|
            0 <= i < n.routes.len() && 0 <= k < n.routes[i].passengers.len() implies n.has_passenger(
            #[trigger] n.routes[i].passengers[k]) by {
            assert(n.routes[i] == self.routes[i]);
        }
        assert(n.admins_wf());
        assert(n.passengers_wf());
        assert(n.routes_wf());
        assert(n.bookings_wf());
        assert(n.proposals_wf());
    }

    pub proof fn lemma_with_booking_wf(
        self,
        route_id: u64,
        passenger_id: u64,
        amount_bits: u64,
        now: u64,
    )
        requires
            self.wf(),
            self.last_id < u64::MAX,
            self.booking_rejection(route_id, passenger_id) is None,
        ensures
            self.with_booking(self.new_booking(route_id, passenger_id, amount_bits, now)).wf(),
    {
        let b = self.new_booking(route_id, passenger_id, amount_bits, now);
        let n = self.with_booking(b);
        self.lemma_raise_all(n.last_id);
        lemma_ids_push(self.booking_ids(), self.last_id);
        assert(n.booking_ids() =~= self.booking_ids().push(b.id));
        assert(n.admins_wf());
        assert(n.passengers_wf());
        assert(n.routes_wf());
        assert(n.bookings_wf());
        assert(n.proposals_wf());
    }

    pub proof fn lemma_with_proposal_wf(
        self,
        route_id: u64,
        proposer_id: u64,
        description: Seq<char>,
        now: u64,
    )
        requires
            self.wf(),
            self.last_id < u64::MAX,
            self.proposal_rejection(route_id, proposer_id) is None,
        ensures
            self.with_proposal(self.new_proposal(route_id, proposer_id, description, now)).wf(),
    {
        let p = self.new_proposal(route_id, proposer_id, description, now);
        let n = self.with_proposal(p);
        self.lemma_raise_all(n.last_id);
        lemma_ids_push(self.proposal_ids(), self.last_id);
        assert(n.proposal_ids() =~= self.proposal_ids().push(p.id));
        assert(n.admins_wf());
        assert(n.passengers_wf());
        assert(n.routes_wf());
        assert(n.bookings_wf());
        assert(n.proposals_wf());
    }

    /// A vote changes no id and no reference.
    pub proof fn lemma_with_vote_wf(self, proposal_id: u64, vote: bool)
        requires
            self.wf(),
        ensures
            self.with_vote(proposal_id, vote).wf(),
    {
        let n = self.with_vote(proposal_id, vote);
        assert(n.proposal_ids() =~= self.proposal_ids());
        assert(n.routes == self.routes && n.passengers == self.passengers);
        assert forall|x: u64| n.has_route(x) == self.has_route(x) by {}
        assert forall|x: u64| n.has_passenger(x) == self.has_passenger(x) by {}
        assert(n.admins_wf());
        assert(n.passengers_wf());
        assert(n.routes_wf());
        assert(n.bookings_wf());
        assert(n.proposals_wf());
    }

    /// A passenger joining a route changes no id, and keeps the route's list
    /// free of duplicates and of unknown passengers.
    pub proof fn lemma_with_route_passenger_wf(self, route_id: u64, passenger_id: u64)
        requires
            self.wf(),
            self.join_rejection(route_id, passenger_id) is None,
        ensures
            self.with_route_passenger(route_id, passenger_id).wf(),
    {
        let n = self.with_route_passenger(route_id, passenger_id);
        assert(n.route_ids() =~= self.route_ids());
        assert forall|x: u64| n.has_route(x) == self.has_route(x) by {}
        assert forall|i: int| 0 <= i < n.routes.len() implies valid_name(#[trigger] n.routes[i].name)
            && n.has_admin(n.routes[i].admin_id) && n.routes[i].passengers.no_duplicates() by {
            if self.routes[i].id == route_id {
                assert(!self.routes[i].passengers.contains(passenger_id));
                let ps = n.routes[i].passengers;
                assert forall|a: int, b: int| 0 <= a < ps.len() && 0 <= b < ps.len() && a != b implies ps[a] != ps[b] by {
                    if b == ps.len() - 1 {
                        assert(self.routes[i].passengers[a] == ps[a]);
                    } else if a == ps.len() - 1 {
                        assert(self.routes[i].passengers[b] == ps[b]);
                    }
                }
            }
        }
        assert forall|i: int, k: int|
            0 <= i < n.routes.len() && 0 <= k < n.routes[i].passengers.len() implies n.has_passenger(
            #[trigger] n.routes[i].passengers[k]) by {
            if self.routes[i].id == route_id && k == self.routes[i].passengers.len() {
            } else {
                assert(self.has_passenger(self.routes[i].passengers[k]));
            }
        }
        assert(n.admins_wf());
        assert(n.passengers_wf());
        assert(n.routes_wf());
        assert(n.bookings_wf());
        assert(n.proposals_wf());
    }
}

} // verus!
