use vstd::prelude::*;

verus! {

/// An administrator, who defines routes.
pub struct Admin {
    pub id: u64,
    pub name: String,
    pub email: String,
    pub created_at: u64,
}

/// A route run by an administrator, with the ids of the passengers on it in
/// the order they joined.
pub struct Route {
    pub id: u64,
    pub name: String,
    pub admin_id: u64,
    pub passengers: Vec<u64>,
    pub created_at: u64,
}

/// A registered passenger.
pub struct Passenger {
    pub id: u64,
    pub name: String,
    pub email: String,
    pub points: u64,
    pub created_at: u64,
}

/// A booking of a route by a passenger. The amount is held as the bit
/// pattern of the 64-bit floating-point value the caller gave; it is stored,
/// never interpreted.
pub struct Booking {
    pub id: u64,
    pub route_id: u64,
    pub passenger_id: u64,
    pub amount_bits: u64,
    pub created_at: u64,
}

/// A proposal about a route, with its vote tallies.
pub struct Proposal {
    pub id: u64,
    pub route_id: u64,
    pub proposer_id: u64,
    pub description: String,
    pub votes_for: u64,
    pub votes_against: u64,
    pub created_at: u64,
}

pub struct AdminView {
    pub id: u64,
    pub name: Seq<char>,
    pub email: Seq<char>,
    pub created_at: u64,
}

pub struct RouteView {
    pub id: u64,
    pub name: Seq<char>,
    pub admin_id: u64,
    pub passengers: Seq<u64>,
    pub created_at: u64,
}

pub struct PassengerView {
    pub id: u64,
    pub name: Seq<char>,
    pub email: Seq<char>,
    pub points: u64,
    pub created_at: u64,
}

pub struct BookingView {
    pub id: u64,
    pub route_id: u64,
    pub passenger_id: u64,
    pub amount_bits: u64,
    pub created_at: u64,
}

pub struct ProposalView {
    pub id: u64,
    pub route_id: u64,
    pub proposer_id: u64,
    pub description: Seq<char>,
    pub votes_for: u64,
    pub votes_against: u64,
    pub created_at: u64,
}

impl View for Admin {
    type V = AdminView;

    open spec fn view(&self) -> AdminView {
        AdminView { id: self.id, name: self.name@, email: self.email@, created_at: self.created_at }
    }
}

impl View for Route {
    type V = RouteView;

    open spec fn view(&self) -> RouteView {
        RouteView {
            id: self.id,
            name: self.name@,
            admin_id: self.admin_id,
            passengers: self.passengers@,
            created_at: self.created_at,
        }
    }
}

impl View for Passenger {
    type V = PassengerView;

    open spec fn view(&self) -> PassengerView {
        PassengerView {
            id: self.id,
            name: self.name@,
            email: self.email@,
            points: self.points,
            created_at: self.created_at,
        }
    }
}

impl View for Booking {
    type V = BookingView;

    open spec fn view(&self) -> BookingView {
        BookingView {
            id: self.id,
            route_id: self.route_id,
            passenger_id: self.passenger_id,
            amount_bits: self.amount_bits,
            created_at: self.created_at,
        }
    }
}

impl View for Proposal {
    type V = ProposalView;

    open spec fn view(&self) -> ProposalView {
        ProposalView {
            id: self.id,
            route_id: self.route_id,
            proposer_id: self.proposer_id,
            description: self.description@,
            votes_for: self.votes_for,
            votes_against: self.votes_against,
            created_at: self.created_at,
        }
    }
}

impl Admin {
    /// A field-by-field copy.
    pub fn duplicate(&self) -> (r: Admin)
        ensures
            r@ == self@,
    {
        Admin {
            id: self.id,
            name: self.name.clone(),
            email: self.email.clone(),
            created_at: self.created_at,
        }
    }
}

impl Route {
    /// A field-by-field copy.
    pub fn duplicate(&self) -> (r: Route)
        ensures
            r@ == self@,
    {
        Route {
            id: self.id,
            name: self.name.clone(),
            admin_id: self.admin_id,
            passengers: self.passengers.clone(),
            created_at: self.created_at,
        }
    }
}

impl Passenger {
    /// A field-by-field copy.
    pub fn duplicate(&self) -> (r: Passenger)
        ensures
            r@ == self@,
    {
        Passenger {
            id: self.id,
            name: self.name.clone(),
            email: self.email.clone(),
            points: self.points,
            created_at: self.created_at,
        }
    }
}

impl Booking {
    /// A field-by-field copy.
    pub fn duplicate(&self) -> (r: Booking)
        ensures
            r@ == self@,
    {
        Booking {
            id: self.id,
            route_id: self.route_id,
            passenger_id: self.passenger_id,
            amount_bits: self.amount_bits,
            created_at: self.created_at,
        }
    }
}

impl Proposal {
    /// A field-by-field copy.
    pub fn duplicate(&self) -> (r: Proposal)
        ensures
            r@ == self@,
    {
        Proposal {
            id: self.id,
            route_id: self.route_id,
            proposer_id: self.proposer_id,
            description: self.description.clone(),
            votes_for: self.votes_for,
            votes_against: self.votes_against,
            created_at: self.created_at,
        }
    }
}

/// What `create_admin` receives.
pub struct AdminPayload {
    pub name: String,
    pub email: String,
}

/// What `create_route` receives.
pub struct RoutePayload {
    pub name: String,
    pub admin_id: u64,
}

/// What `create_passenger` receives.
pub struct PassengerPayload {
    pub name: String,
    pub email: String,
}

/// What `book_route` receives; the amount as the bit pattern of a 64-bit float.
pub struct BookingPayload {
    pub route_id: u64,
    pub passenger_id: u64,
    pub amount_bits: u64,
}

/// What `propose_route` receives.
pub struct ProposalPayload {
    pub route_id: u64,
    pub proposer_id: u64,
    pub description: String,
}

/// What `vote_on_proposal` receives.
pub struct VotePayload {
    pub proposal_id: u64,
    pub passenger_id: u64,
    /// `true` for a vote in favour, `false` for one against.
    pub vote: bool,
}

/// What `add_passenger_to_route` receives.
pub struct AddPassengerToRoutePayload {
    pub route_id: u64,
    pub passenger_id: u64,
}

} // verus!
