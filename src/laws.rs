use vstd::prelude::*;

use crate::error::ErrorKind;
use crate::model::StoreModel;

verus! {

/// Every accepted creation receives an id above every id the store already
/// holds and above the last id issued; a rejected one leaves the counter
/// where it was (the operations' own contracts keep the store unchanged on
/// failure).
pub proof fn fresh_id_is_above_all_issued(s: StoreModel)
    requires
        s.wf(),
        s.last_id < u64::MAX,
    ensures
        s.ids_below(s.fresh_id()),
        s.fresh_id() > s.last_id,
{
    s.lemma_fresh_id_exceeds();
}

/// Registering an admin with an email that an admin already uses is refused
/// with `AlreadyExists`, whatever the (non-empty) name. Stored emails are
/// well formed, so no earlier check can refuse it first.
pub proof fn admin_email_reuse_is_refused(s: StoreModel, name: Seq<char>, email: Seq<char>)
    requires
        s.wf(),
        name.len() > 0,
        s.admin_email_used(email),
    ensures
        s.admin_rejection(name, email) == Some(ErrorKind::AlreadyExists),
{
    let i = choose|i: int| 0 <= i < s.admins.len() && #[trigger] s.admins[i].email == email;
    assert(crate::validation::valid_email(s.admins[i].email));
}

/// Registering a passenger with an email that a passenger already uses is
/// refused with `AlreadyExists`, whatever the (non-empty) name.
pub proof fn passenger_email_reuse_is_refused(s: StoreModel, name: Seq<char>, email: Seq<char>)
    requires
        s.wf(),
        name.len() > 0,
        s.passenger_email_used(email),
    ensures
        s.passenger_rejection(name, email) == Some(ErrorKind::AlreadyExists),
{
    let i = choose|i: int| 0 <= i < s.passengers.len() && #[trigger] s.passengers[i].email == email;
    assert(crate::validation::valid_email(s.passengers[i].email));
}

/// Emails stay unique within the admins and within the passengers in every
/// well-formed store.
pub proof fn emails_unique(s: StoreModel, i: int, j: int)
    requires
        s.wf(),
    ensures
        0 <= i < j < s.admins.len() ==> s.admins[i].email != s.admins[j].email,
        0 <= i < j < s.passengers.len() ==> s.passengers[i].email != s.passengers[j].email,
{
}

/// Adding the same passenger to the same route twice: the first call is
/// accepted, the second refused with `AlreadyExists`, and the route then
/// lists the passenger exactly once.
pub proof fn joining_twice_lists_once(s: StoreModel, route_id: u64, passenger_id: u64)
    requires
        s.wf(),
        s.has_route(route_id),
        s.has_passenger(passenger_id),
        !s.on_route(route_id, passenger_id),
    ensures
        s.join_rejection(route_id, passenger_id) is None,
        s.with_route_passenger(route_id, passenger_id).join_rejection(route_id, passenger_id)
            == Some(ErrorKind::AlreadyExists),
        forall|i: int|
            0 <= i < s.routes.len() && #[trigger] s.routes[i].id == route_id ==> {
                let ps = s.with_route_passenger(route_id, passenger_id).routes[i].passengers;
                exists|k: int|
                    0 <= k < ps.len() && ps[k] == passenger_id && forall|m: int|
                        0 <= m < ps.len() && #[trigger] ps[m] == passenger_id ==> m == k
            },
{
    let n = s.with_route_passenger(route_id, passenger_id);
    let i0 = choose|i: int| 0 <= i < s.route_ids().len() && s.route_ids()[i] == route_id;
    assert(n.routes[i0].passengers.contains(passenger_id)) by {
        assert(n.routes[i0].passengers[s.routes[i0].passengers.len() as int] == passenger_id);
    }
    assert(n.route_ids() =~= s.route_ids());
    assert(n.passenger_ids() =~= s.passenger_ids());
    assert forall|i: int| 0 <= i < s.routes.len() && #[trigger] s.routes[i].id == route_id implies {
        let ps = n.routes[i].passengers;
        exists|k: int|
            0 <= k < ps.len() && ps[k] == passenger_id && forall|m: int|
                0 <= m < ps.len() && #[trigger] ps[m] == passenger_id ==> m == k
    } by {
        let ps = n.routes[i].passengers;
        let k = s.routes[i].passengers.len() as int;
        assert(!s.routes[i].passengers.contains(passenger_id));
        assert forall|m: int| 0 <= m < ps.len() && #[trigger] ps[m] == passenger_id implies m == k by {
            if m < k {
                assert(s.routes[i].passengers[m] == ps[m]);
            }
        }
        assert(ps[k] == passenger_id);
    }
}

} // verus!
