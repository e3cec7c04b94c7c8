use vstd::prelude::*;

use crate::entities::{
    Admin,
    AdminView,
    Booking,
    BookingView,
    Passenger,
    PassengerView,
    Proposal,
    ProposalView,
    Route,
    RouteView,
};
use crate::model::StoreModel;

verus! {

/// A record that carries the shared identifier.
pub trait Keyed {
    spec fn spec_id(&self) -> u64;

    fn id(&self) -> (r: u64)
        ensures
            r == self.spec_id(),
    ;
}

impl Keyed for Admin {
    open spec fn spec_id(&self) -> u64 {
        self.id
    }

    fn id(&self) -> (r: u64) {
        self.id
    }
}

impl Keyed for Route {
    open spec fn spec_id(&self) -> u64 {
        self.id
    }

    fn id(&self) -> (r: u64) {
        self.id
    }
}

impl Keyed for Passenger {
    open spec fn spec_id(&self) -> u64 {
        self.id
    }

    fn id(&self) -> (r: u64) {
        self.id
    }
}

impl Keyed for Booking {
    open spec fn spec_id(&self) -> u64 {
        self.id
    }

    fn id(&self) -> (r: u64) {
        self.id
    }
}

impl Keyed for Proposal {
    open spec fn spec_id(&self) -> u64 {
        self.id
    }

    fn id(&self) -> (r: u64) {
        self.id
    }
}

/// The position of the record with id `id` in `records`, by a linear scan.
pub fn position_of<T: Keyed>(records: &Vec<T>, id: u64) -> (r: Option<usize>)
    ensures
        r is Some ==> r->Some_0 < records@.len() && records@[r->Some_0 as int].spec_id() == id,
        r is None ==> forall|i: int| 0 <= i < records@.len() ==> #[trigger] records@[i].spec_id() != id,
{
    let mut i: usize = 0;
    while i < records.len()
        invariant
            i <= records@.len(),
            forall|j: int| 0 <= j < i ==> #[trigger] records@[j].spec_id() != id,
        decreases records@.len() - i,
    {
        if records[i].id() == id {
            return Some(i);
        }
        i += 1;
    }
    None
}

/// The entity store: one collection per entity kind, in order of creation,
/// and the counter behind the shared identifier space.
pub struct TransitStore {
    pub(crate) last_id: u64,
    pub(crate) admins: Vec<Admin>,
    pub(crate) routes: Vec<Route>,
    pub(crate) passengers: Vec<Passenger>,
    pub(crate) bookings: Vec<Booking>,
    pub(crate) proposals: Vec<Proposal>,
}

impl View for TransitStore {
    type V = StoreModel;

    open(crate) spec fn view(&self) -> StoreModel {
        StoreModel {
            last_id: self.last_id,
            admins: self.admins@.map_values(|a: Admin| a@),
            routes: self.routes@.map_values(|r: Route| r@),
            passengers: self.passengers@.map_values(|p: Passenger| p@),
            bookings: self.bookings@.map_values(|b: Booking| b@),
            proposals: self.proposals@.map_values(|p: Proposal| p@),
        }
    }
}

impl TransitStore {
    /// An empty store; the first id it issues is 1.
    pub fn new() -> (s: TransitStore)
        ensures
            s@ == StoreModel::empty(),
            s@.wf(),
    {
        let s = TransitStore {
            last_id: 0,
            admins: Vec::new(),
            routes: Vec::new(),
            passengers: Vec::new(),
            bookings: Vec::new(),
            proposals: Vec::new(),
        };
        assert(s@.admins =~= Seq::<AdminView>::empty());
        assert(s@.routes =~= Seq::<RouteView>::empty());
        assert(s@.passengers =~= Seq::<PassengerView>::empty());
        assert(s@.bookings =~= Seq::<BookingView>::empty());
        assert(s@.proposals =~= Seq::<ProposalView>::empty());
        s
    }

    /// The last id issued, 0 before the first.
    pub fn last_id(&self) -> (r: u64)
        ensures
            r == self@.last_id,
    {
        self.last_id
    }

    /// Issues the next identifier: the counter goes up by one and its new
    /// value is returned.
    pub(crate) fn next_id(&mut self) -> (r: u64)
        requires
            old(self)@.last_id < u64::MAX,
        ensures
            r == old(self)@.fresh_id(),
            final(self)@ == (StoreModel { last_id: r, ..old(self)@ }),
    {
        self.last_id = self.last_id + 1;
        self.last_id
    }

    pub fn contains_admin(&self, id: u64) -> (r: bool)
        ensures
            r == self@.has_admin(id),
    {
        self.get_admin(id).is_some()
    }

    pub fn contains_route(&self, id: u64) -> (r: bool)
        ensures
            r == self@.has_route(id),
    {
        self.get_route(id).is_some()
    }

    pub fn contains_passenger(&self, id: u64) -> (r: bool)
        ensures
            r == self@.has_passenger(id),
    {
        self.get_passenger(id).is_some()
    }

    pub fn contains_booking(&self, id: u64) -> (r: bool)
        ensures
            r == self@.has_booking(id),
    {
        self.get_booking(id).is_some()
    }

    pub fn contains_proposal(&self, id: u64) -> (r: bool)
        ensures
            r == self@.has_proposal(id),
    {
        self.get_proposal(id).is_some()
    }

    /// Whether an admin already uses `email`, by a scan of all admins.
    pub fn admin_email_taken(&self, email: &String) -> (r: bool)
        ensures
            r == self@.admin_email_used(email@),
    {
        let mut i: usize = 0;
        while i < self.admins.len()
            invariant
                i <= self.admins@.len(),
                forall|j: int| 0 <= j < i ==> #[trigger] self.admins@[j].email@ != email@,
            decreases self.admins@.len() - i,
        {
            if self.admins[i].email == *email {
                assert(self@.admins[i as int].email == email@);
                return true;
            }
            i += 1;
        }
        assert forall|j: int| 0 <= j < self@.admins.len() implies #[trigger] self@.admins[j].email
            != email@ by {
            assert(self.admins@[j].email@ != email@);
        }
        false
    }

    /// Whether a passenger already uses `email`, by a scan of all passengers.
    pub fn passenger_email_taken(&self, email: &String) -> (r: bool)
        ensures
            r == self@.passenger_email_used(email@),
    {
        let mut i: usize = 0;
        while i < self.passengers.len()
            invariant
                i <= self.passengers@.len(),
                forall|j: int| 0 <= j < i ==> #[trigger] self.passengers@[j].email@ != email@,
            decreases self.passengers@.len() - i,
        {
            if self.passengers[i].email == *email {
                assert(self@.passengers[i as int].email == email@);
                return true;
            }
            i += 1;
        }
        assert forall|j: int| 0 <= j < self@.passengers.len() implies #[trigger] self@.passengers[
            j].email != email@ by {
            assert(self.passengers@[j].email@ != email@);
        }
        false
    }

    /// The admin with id `id`, if there is one.
    pub fn get_admin(&self, id: u64) -> (r: Option<&Admin>)
        ensures
            r is Some <==> self@.has_admin(id),
            r is Some ==> r->Some_0@.id == id && self@.admins.contains(r->Some_0@),
    {
        match position_of(&self.admins, id) {
            Some(i) => {
                assert(self@.admins[i as int] == self.admins@[i as int]@);
                assert(self@.admin_ids()[i as int] == id);
                Some(&self.admins[i])
            },
            None => {
                assert forall|j: int| 0 <= j < self@.admin_ids().len() implies self@.admin_ids()[j] != id by {
                    assert(self.admins@[j].spec_id() != id);
                }
                None
            },
        }
    }

    /// The route with id `id`, if there is one.
    pub fn get_route(&self, id: u64) -> (r: Option<&Route>)
        ensures
            r is Some <==> self@.has_route(id),
            r is Some ==> r->Some_0@.id == id && self@.routes.contains(r->Some_0@),
    {
        match position_of(&self.routes, id) {
            Some(i) => {
                assert(self@.routes[i as int] == self.routes@[i as int]@);
                assert(self@.route_ids()[i as int] == id);
                Some(&self.routes[i])
            },
            None => {
                assert forall|j: int| 0 <= j < self@.route_ids().len() implies self@.route_ids()[j] != id by {
                    assert(self.routes@[j].spec_id() != id);
                }
                None
            },
        }
    }

    /// The passenger with id `id`, if there is one.
    pub fn get_passenger(&self, id: u64) -> (r: Option<&Passenger>)
        ensures
            r is Some <==> self@.has_passenger(id),
            r is Some ==> r->Some_0@.id == id && self@.passengers.contains(r->Some_0@),
    {
        match position_of(&self.passengers, id) {
            Some(i) => {
                assert(self@.passengers[i as int] == self.passengers@[i as int]@);
                assert(self@.passenger_ids()[i as int] == id);
                Some(&self.passengers[i])
            },
            None => {
                assert forall|j: int| 0 <= j < self@.passenger_ids().len() implies self@.passenger_ids()[j] != id by {
                    assert(self.passengers@[j].spec_id() != id);
                }
                None
            },
        }
    }

    /// The booking with id `id`, if there is one.
    pub fn get_booking(&self, id: u64) -> (r: Option<&Booking>)
        ensures
            r is Some <==> self@.has_booking(id),
            r is Some ==> r->Some_0@.id == id && self@.bookings.contains(r->Some_0@),
    {
        match position_of(&self.bookings, id) {
            Some(i) => {
                assert(self@.bookings[i as int] == self.bookings@[i as int]@);
                assert(self@.booking_ids()[i as int] == id);
                Some(&self.bookings[i])
            },
            None => {
                assert forall|j: int| 0 <= j < self@.booking_ids().len() implies self@.booking_ids()[j] != id by {
                    assert(self.bookings@[j].spec_id() != id);
                }
                None
            },
        }
    }

    /// The proposal with id `id`, if there is one.
    pub fn get_proposal(&self, id: u64) -> (r: Option<&Proposal>)
        ensures
            r is Some <==> self@.has_proposal(id),
            r is Some ==> r->Some_0@.id == id && self@.proposals.contains(r->Some_0@),
    {
        match position_of(&self.proposals, id) {
            Some(i) => {
                assert(self@.proposals[i as int] == self.proposals@[i as int]@);
                assert(self@.proposal_ids()[i as int] == id);
                Some(&self.proposals[i])
            },
            None => {
                assert forall|j: int| 0 <= j < self@.proposal_ids().len() implies self@.proposal_ids()[j] != id by {
                    assert(self.proposals@[j].spec_id() != id);
                }
                None
            },
        }
    }
}

} // verus!
