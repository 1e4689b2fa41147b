//! Rotation across the instances of a service.
//!
//! A client keeps the instances of a service as a registry listed them,
//! hands them out one after the other, and starts over after the last.
//! The list is good for the lifetime of a lease.

use vstd::arithmetic::div_mod::{
    lemma_div_is_ordered, lemma_fundamental_div_mod, lemma_fundamental_div_mod_converse,
    lemma_mod_bound,
};
use vstd::prelude::*;
use crate::client::error::WatchtowerError;
use crate::clock::{expired_at, is_expired_at, unix_time};
use crate::instance::{instance_views, InstanceInfo, InstanceInfoView};

verus! {

/// The instances of a service as a registry listed them at one time, and
/// the place in the list of the instance to hand out next.
#[derive(Debug)]
pub struct Service {
    instances: Vec<InstanceInfo>,
    cursor: usize,
    fetched_at: u64,
}

/// What a `Service` holds, as plain mathematical values.
pub struct ServiceView {
    pub instances: Seq<InstanceInfoView>,
    pub cursor: nat,
    pub fetched_at: u64,
}

/// The place after `cursor` in a list of `len` instances, the first after
/// the last.
pub open spec fn next_cursor(cursor: nat, len: nat) -> nat {
    if cursor + 1 < len {
        cursor + 1
    } else {
        0
    }
}

/// The list `service` after it has handed out one instance.
pub open spec fn advanced(service: ServiceView) -> ServiceView {
    ServiceView { cursor: next_cursor(service.cursor, service.instances.len()), ..service }
}

/// A list as it is when it was fetched at time `now`: nothing handed out.
pub open spec fn fetched(instances: Seq<InstanceInfoView>, now: u64) -> ServiceView {
    ServiceView { instances, cursor: 0, fetched_at: now }
}

impl View for Service {
    type V = ServiceView;

    closed spec fn view(&self) -> ServiceView {
        ServiceView {
            instances: instance_views(self.instances@),
            cursor: self.cursor as nat,
            fetched_at: self.fetched_at,
        }
    }
}

impl Service {
    /// The cursor names an instance of the list, or is zero for an empty
    /// list.
    #[verifier::type_invariant]
    pub closed spec fn inv(&self) -> bool {
        self.cursor < self.instances.len() || (self.cursor == 0 && self.instances.len() == 0)
    }

    /// What the invariant says of the view.
    pub proof fn lemma_cursor(&self)
        requires
            self.inv(),
        ensures
            self@.cursor < self@.instances.len() || (self@.cursor == 0 && self@.instances.len() == 0),
    {
    }

    /// The list `instances`, fetched at time `now`.
    pub fn new_at(instances: Vec<InstanceInfo>, now: u64) -> (r: Service)
        ensures
            r@ == fetched(instance_views(instances@), now),
    {
        Service { instances, cursor: 0, fetched_at: now }
    }

    /// The list `instances`, fetched at the time that the system clock
    /// shows. Fails when the clock stands before the epoch.
    pub fn new(instances: Vec<InstanceInfo>) -> (r: Result<Service, WatchtowerError>)
        ensures
            match r {
                Ok(service) => exists|now: u64|
                    service@ == #[trigger] fetched(
                        instance_views(instances@),
                        now,
                    ),
                Err(e) => e == WatchtowerError::InternalError,
            },
    {
        match unix_time() {
            Ok(now) => {
                let r = Ok(Service::new_at(instances, now));
                assert(r->Ok_0@ == fetched(instance_views(instances@), now));
                r
            },
            Err(e) => Err(WatchtowerError::from(e)),
        }
    }

    /// The number of instances in the list.
    pub fn len(&self) -> (n: usize)
        ensures
            n == self@.instances.len(),
    {
        self.instances.len()
    }

    /// Whether the list is older than the lifetime of a lease at time
    /// `now`.
    pub fn is_expired_at(&self, now: u64) -> (r: bool)
        ensures
            r == expired_at(self@.fetched_at, now),
    {
        is_expired_at(self.fetched_at, now)
    }

    /// Whether the list is older than the lifetime of a lease by the system
    /// clock. Fails when the clock stands before the epoch.
    pub fn is_expired(&self) -> (r: Result<bool, WatchtowerError>)
        ensures
            match r {
                Ok(expired) => exists|now: u64|
                    expired == #[trigger] expired_at(self@.fetched_at, now),
                Err(e) => e == WatchtowerError::InternalError,
            },
    {
        match unix_time() {
            Ok(now) => Ok(self.is_expired_at(now)),
            Err(e) => Err(WatchtowerError::from(e)),
        }
    }

    /// Hands out the instance at the cursor and moves the cursor on. An
    /// empty list has nothing to hand out.
    pub fn get_next_instance(&mut self) -> (r: Result<InstanceInfo, WatchtowerError>)
        ensures
            match r {
                Ok(info) => {
                    &&& old(self)@.cursor < old(self)@.instances.len()
                    &&& info@ == old(self)@.instances[old(self)@.cursor as int]
                    &&& final(self)@ == advanced(old(self)@)
                },
                Err(e) => {
                    &&& e == WatchtowerError::NotFound
                    &&& old(self)@.instances.len() == 0
                    &&& final(self)@ == old(self)@
                },
            },
    {
        proof {
            use_type_invariant(&*self);
        }
        let len = self.instances.len();
        if len == 0 {
            return Err(WatchtowerError::NotFound);
        }
        let info = self.instances[self.cursor].clone();
        self.cursor = if self.cursor + 1 < len {
            self.cursor + 1
        } else {
            0
        };
        Ok(info)
    }
}

/// The list `service` after it has handed out `calls` instances.
pub open spec fn advanced_by(service: ServiceView, calls: nat) -> ServiceView
    decreases calls,
{
    if calls == 0 {
        service
    } else {
        advanced(advanced_by(service, (calls - 1) as nat))
    }
}

/// How often the first `calls` calls of `get_next_instance` hand out the
/// instance at `place`.
pub open spec fn times_handed_out(service: ServiceView, calls: nat, place: nat) -> nat
    decreases calls,
{
    if calls == 0 {
        0
    } else {
        let earlier = times_handed_out(service, (calls - 1) as nat, place);
        if advanced_by(service, (calls - 1) as nat).cursor == place {
            earlier + 1
        } else {
            earlier
        }
    }
}

/// The quotient grows by one exactly where the dividend reaches a multiple
/// of the divisor.
proof fn lemma_quotient_step(x: int, m: int)
    requires
        0 <= x,
        0 < m,
    ensures
        (x + 1) / m == x / m + if (x + 1) % m == 0 {
            1int
        } else {
            0int
        },
{
    let q = x / m;
    let r = x % m;
    lemma_fundamental_div_mod(x, m);
    lemma_mod_bound(x, m);
    assert(m * q == q * m) by (nonlinear_arith);
    if r + 1 < m {
        lemma_fundamental_div_mod_converse(x + 1, m, q, r + 1);
    } else {
        assert((q + 1) * m == q * m + m) by (nonlinear_arith);
        lemma_fundamental_div_mod_converse(x + 1, m, q + 1, 0);
    }
}

/// Adding `place`, which is less than `m`, to `y` gives the remainder
/// `place` exactly where `y` is a multiple of `m`.
proof fn lemma_remainder_of_sum(y: int, place: int, m: int)
    requires
        0 <= place < m,
    ensures
        ((y + place) % m == place) <==> (y % m == 0),
{
    let k = y / m;
    let s = y % m;
    lemma_fundamental_div_mod(y, m);
    lemma_mod_bound(y, m);
    assert(m * k == k * m) by (nonlinear_arith);
    if s + place < m {
        lemma_fundamental_div_mod_converse(y + place, m, k, s + place);
    } else {
        assert((k + 1) * m == k * m + m) by (nonlinear_arith);
        lemma_fundamental_div_mod_converse(y + place, m, k + 1, s + place - m);
    }
}

/// The number of calls, counted from a list whose cursor is at `cursor`,
/// after which the instance at `place` is handed out first.
pub open spec fn calls_before(cursor: nat, place: nat, len: nat) -> int {
    if place >= cursor {
        place - cursor
    } else {
        place + len - cursor
    }
}

/// After `calls` calls the cursor has moved on by `calls` places, around
/// the list, and the list is the same.
pub proof fn lemma_advanced_by(service: ServiceView, calls: nat)
    requires
        service.cursor < service.instances.len(),
    ensures
        advanced_by(service, calls).instances == service.instances,
        advanced_by(service, calls).fetched_at == service.fetched_at,
        advanced_by(service, calls).cursor == ((service.cursor + calls) as int) % (
        service.instances.len() as int),
    decreases calls,
{
    let m = service.instances.len() as int;
    if calls == 0 {
        lemma_fundamental_div_mod_converse(service.cursor as int, m, 0, service.cursor as int);
    } else {
        lemma_advanced_by(service, (calls - 1) as nat);
        let before = service.cursor + calls - 1;
        let q = before / m;
        let r = before % m;
        lemma_fundamental_div_mod(before, m);
        lemma_mod_bound(before, m);
        assert(m * q == q * m) by (nonlinear_arith);
        if r + 1 < m {
            lemma_fundamental_div_mod_converse(before + 1, m, q, r + 1);
            lemma_fundamental_div_mod_converse(r + 1, m, 0, r + 1);
        } else {
            assert((q + 1) * m == q * m + m) by (nonlinear_arith);
            lemma_fundamental_div_mod_converse(before + 1, m, q + 1, 0);
            lemma_fundamental_div_mod_converse(r + 1, m, 1, 0);
        }
    }
}

/// How often an instance is handed out, in closed form.
proof fn lemma_times_handed_out(service: ServiceView, calls: nat, place: nat)
    requires
        service.cursor < service.instances.len(),
        place < service.instances.len(),
    ensures
        times_handed_out(service, calls, place) == (calls + service.instances.len() - 1
            - calls_before(service.cursor, place, service.instances.len())) / (
        service.instances.len() as int),
    decreases calls,
{
    let m = service.instances.len() as int;
    let d = calls_before(service.cursor, place, service.instances.len());
    if calls == 0 {
        lemma_fundamental_div_mod_converse(m - 1 - d, m, 0, m - 1 - d);
    } else {
        let n = calls - 1;
        lemma_times_handed_out(service, n as nat, place);
        lemma_advanced_by(service, n as nat);
        let x = n + m - 1 - d;
        lemma_quotient_step(x, m);
        let y = n + m - d;
        lemma_remainder_of_sum(y, place as int, m);
        if place >= service.cursor {
            assert(service.cursor + n == y + place - m);
            lemma_fundamental_div_mod(y + place - m, m);
            lemma_fundamental_div_mod(y + place, m);
            lemma_mod_bound(y + place - m, m);
            lemma_mod_bound(y + place, m);
            let q = (y + place - m) / m;
            assert(m * q == q * m) by (nonlinear_arith);
            assert((q + 1) * m == q * m + m) by (nonlinear_arith);
            lemma_fundamental_div_mod_converse(y + place, m, q + 1, (y + place - m) % m);
        } else {
            assert(service.cursor + n == y + place);
        }
    }
}

/// Rotation is fair. Over any number of calls in a row on one list, each
/// instance of the list is handed out as often as the calls divided by the
/// length of the list, rounded down or rounded up.
pub proof fn lemma_round_robin(service: ServiceView, calls: nat, place: nat)
    requires
        service.cursor < service.instances.len(),
        place < service.instances.len(),
    ensures
        calls / service.instances.len() <= times_handed_out(service, calls, place) <= (calls
            + service.instances.len() - 1) / (service.instances.len() as int),
{
    let m = service.instances.len() as int;
    let d = calls_before(service.cursor, place, service.instances.len());
    lemma_times_handed_out(service, calls, place);
    lemma_div_is_ordered(calls as int, calls + m - 1 - d, m);
    lemma_div_is_ordered(calls + m - 1 - d, calls + m - 1, m);
}

} // verus!
