//! What holds of the lease store and of the replication between nodes,
//! whatever the writes and whatever the clock shows.

use vstd::prelude::*;
use crate::clock::LEASE_TTL_SECONDS;
use crate::http::{Reply, NOT_FOUND, NO_CONTENT};
use crate::instance::InstanceInfoView;
use crate::server::auth::{marks_replication, true_bytes};
use crate::server::dispatcher::{
    delivery_of, marked_as_replication, plain_delivery, register_request, replication_headers,
    request_for, DeliveryView, DispatchView, NodeView,
};
use crate::server::eviction::MAX_LEASE_TO_EVICT;
use crate::server::registry::{
    evicted, evicts, expired_keys, later_of, lease_list_keys, lease_of, leases_of, lists_expired,
    queued, registered, renewed, without, LeaseKey, LeaseView, RegistryView,
};
use crate::server::routes::lease_status;

verus! {

/// The lease that a registration of `info` for `service_id` at time `now`
/// creates.
pub open spec fn lease_from(service_id: Seq<char>, info: InstanceInfoView, now: u64) -> LeaseView {
    LeaseView { service_id, instance_info: info, last_updated_timestamp: now }
}

/// The registry after the registrations `calls` for `service_id`, each an
/// instance and the time of its registration, first to last.
pub open spec fn registered_all(
    v: RegistryView,
    service_id: Seq<char>,
    calls: Seq<(InstanceInfoView, u64)>,
) -> RegistryView
    decreases calls.len(),
{
    if calls.len() == 0 {
        v
    } else {
        registered(
            registered_all(v, service_id, calls.drop_last()),
            service_id,
            calls.last().0,
            calls.last().1,
        )
    }
}

/// Registration is idempotent. After any run of registrations of one
/// instance for one service, the registry is what the last of them alone
/// would have made of it: the lease is for the instance as the last
/// registration gave it, with the time of that registration.
pub proof fn lemma_register_idempotent(
    v: RegistryView,
    service_id: Seq<char>,
    calls: Seq<(InstanceInfoView, u64)>,
)
    requires
        calls.len() > 0,
        forall|i: int|
            0 <= i < calls.len() ==> (#[trigger] calls[i]).0.instance_id
                == calls.last().0.instance_id,
    ensures
        registered_all(v, service_id, calls) == registered(
            v,
            service_id,
            calls.last().0,
            calls.last().1,
        ),
        lease_of(registered_all(v, service_id, calls), service_id, calls.last().0.instance_id)
            == Some(lease_from(service_id, calls.last().0, calls.last().1)),
    decreases calls.len(),
{
    let info = calls.last().0;
    let now = calls.last().1;
    let earlier = calls.drop_last();
    if earlier.len() == 0 {
        assert(registered_all(v, service_id, earlier) == v);
    } else {
        assert(earlier.last() == calls[calls.len() - 2]);
        assert forall|i: int| 0 <= i < earlier.len() implies (#[trigger] earlier[i]).0.instance_id
            == earlier.last().0.instance_id by {
            assert(earlier[i] == calls[i]);
        }
        lemma_register_idempotent(v, service_id, earlier);
        let once = registered(v, service_id, earlier.last().0, earlier.last().1);
        assert(leases_of(once, service_id).insert(
            info.instance_id,
            lease_from(service_id, info, now),
        ) =~= leases_of(v, service_id).insert(info.instance_id, lease_from(service_id, info, now)));
        assert(registered(once, service_id, info, now) =~= registered(v, service_id, info, now));
    }
}

/// A write that sets the time of a lease: a registration, or a renewal.
pub enum Write {
    /// The registration of an instance for a service at a time.
    Register(Seq<char>, InstanceInfoView, u64),
    /// The renewal of the lease of an instance of a service at a time.
    Renew(Seq<char>, Seq<char>, u64),
}

/// The time at which a write was made.
pub open spec fn time_of(write: Write) -> u64 {
    match write {
        Write::Register(_, _, now) => now,
        Write::Renew(_, _, now) => now,
    }
}

/// The registry after `write`.
pub open spec fn written(v: RegistryView, write: Write) -> RegistryView {
    match write {
        Write::Register(service_id, info, now) => registered(v, service_id, info, now),
        Write::Renew(service_id, instance_id, now) => renewed(v, service_id, instance_id, now),
    }
}

/// The registry after the first `count` of `writes`.
pub open spec fn written_all(v: RegistryView, writes: Seq<Write>, count: int) -> RegistryView
    decreases count,
{
    if count <= 0 {
        v
    } else {
        written(written_all(v, writes, count - 1), writes[count - 1])
    }
}

/// The time of the lease of an instance. Only meaningful where the
/// instance holds a lease.
pub open spec fn time_of_lease(v: RegistryView, service_id: Seq<char>, instance_id: Seq<char>) -> u64 {
    v[service_id][instance_id].last_updated_timestamp
}

/// Whether `write` is a write for the instance `instance_id` of
/// `service_id`.
pub open spec fn touches(write: Write, service_id: Seq<char>, instance_id: Seq<char>) -> bool {
    match write {
        Write::Register(service, info, _) => service == service_id && info.instance_id
            == instance_id,
        Write::Renew(service, instance, _) => service == service_id && instance == instance_id,
    }
}

/// Whether `write` registers the instance `instance_id` of `service_id`.
pub open spec fn registers(write: Write, service_id: Seq<char>, instance_id: Seq<char>) -> bool {
    write is Register && touches(write, service_id, instance_id)
}

/// No registration of the instance among `writes` reads the clock below
/// the time that the lease of the instance has when the registration is
/// made. Renewals are free to read any time.
pub open spec fn registrations_not_early(
    v: RegistryView,
    writes: Seq<Write>,
    service_id: Seq<char>,
    instance_id: Seq<char>,
) -> bool {
    forall|j: int|
        0 <= j < writes.len() && registers(#[trigger] writes[j], service_id, instance_id)
            ==> time_of_lease(written_all(v, writes, j), service_id, instance_id) <= time_of(
            writes[j],
        )
}

/// A renewal never moves the time of a lease backward, whatever the clock
/// shows: the time of a renewed lease is the later of the time that the
/// lease had and the time of the renewal.
pub proof fn lemma_renewal_never_moves_time_back(
    v: RegistryView,
    service_id: Seq<char>,
    instance_id: Seq<char>,
    now: u64,
)
    requires
        lease_of(v, service_id, instance_id) is Some,
    ensures
        lease_of(renewed(v, service_id, instance_id, now), service_id, instance_id) is Some,
        time_of_lease(renewed(v, service_id, instance_id, now), service_id, instance_id)
            == later_of(time_of_lease(v, service_id, instance_id), now),
        time_of_lease(v, service_id, instance_id) <= time_of_lease(
            renewed(v, service_id, instance_id, now),
            service_id,
            instance_id,
        ),
        now <= time_of_lease(renewed(v, service_id, instance_id, now), service_id, instance_id),
{
}

/// A lease that is held stays held across registrations and renewals.
proof fn lemma_lease_stays_held(
    v: RegistryView,
    writes: Seq<Write>,
    service_id: Seq<char>,
    instance_id: Seq<char>,
    count: int,
)
    requires
        lease_of(v, service_id, instance_id) is Some,
        0 <= count <= writes.len(),
    ensures
        lease_of(written_all(v, writes, count), service_id, instance_id) is Some,
    decreases count,
{
    if count > 0 {
        lemma_lease_stays_held(v, writes, service_id, instance_id, count - 1);
    }
}

/// The time of a lease never decreases. Across any mixed run of
/// registrations and renewals, the time of a lease that is held at the
/// start is, after more of the writes, no earlier than after fewer of
/// them. A renewal may read any time; a registration of the instance sets
/// the time of the lease to the time that it reads, and must not read one
/// below the time of the lease.
pub proof fn lemma_timestamp_monotone(
    v: RegistryView,
    writes: Seq<Write>,
    service_id: Seq<char>,
    instance_id: Seq<char>,
    fewer: int,
    more: int,
)
    requires
        lease_of(v, service_id, instance_id) is Some,
        registrations_not_early(v, writes, service_id, instance_id),
        0 <= fewer <= more <= writes.len(),
    ensures
        lease_of(written_all(v, writes, fewer), service_id, instance_id) is Some,
        lease_of(written_all(v, writes, more), service_id, instance_id) is Some,
        time_of_lease(written_all(v, writes, fewer), service_id, instance_id) <= time_of_lease(
            written_all(v, writes, more),
            service_id,
            instance_id,
        ),
    decreases more - fewer,
{
    lemma_lease_stays_held(v, writes, service_id, instance_id, fewer);
    lemma_lease_stays_held(v, writes, service_id, instance_id, more);
    if fewer < more {
        lemma_timestamp_monotone(v, writes, service_id, instance_id, fewer, more - 1);
        lemma_lease_stays_held(v, writes, service_id, instance_id, more - 1);
        let before = written_all(v, writes, more - 1);
        let write = writes[more - 1];
        if registers(write, service_id, instance_id) {
            assert(time_of_lease(before, service_id, instance_id) <= time_of(write));
        }
    }
}

/// A lease stays as it is while the writes are for other instances.
pub proof fn lemma_other_writes_keep_lease(
    v: RegistryView,
    writes: Seq<Write>,
    service_id: Seq<char>,
    instance_id: Seq<char>,
    count: int,
)
    requires
        0 <= count <= writes.len(),
        forall|i: int| 0 <= i < writes.len() ==> !touches(#[trigger] writes[i], service_id, instance_id),
    ensures
        lease_of(written_all(v, writes, count), service_id, instance_id) == lease_of(
            v,
            service_id,
            instance_id,
        ),
    decreases count,
{
    if count > 0 {
        lemma_other_writes_keep_lease(v, writes, service_id, instance_id, count - 1);
        assert(!touches(writes[count - 1], service_id, instance_id));
    }
}

/// A lease expires when its lifetime has passed. A lease that was
/// registered at time `registered_at` and has not been renewed since,
/// whatever was written for other instances, is among the expired leases
/// at any time later than `registered_at` by more than the lifetime of a
/// lease, and every list of the expired leases holds it.
pub proof fn lemma_expired_after_ttl(
    v: RegistryView,
    service_id: Seq<char>,
    info: InstanceInfoView,
    registered_at: u64,
    others: Seq<Write>,
    now: u64,
    listing: Seq<LeaseView>,
)
    requires
        forall|i: int|
            0 <= i < others.len() ==> !touches(#[trigger] others[i], service_id, info.instance_id),
        now > registered_at + LEASE_TTL_SECONDS,
        lists_expired(
            listing,
            written_all(
                registered(v, service_id, info, registered_at),
                others,
                others.len() as int,
            ),
            now,
        ),
    ensures
        expired_keys(
            written_all(
                registered(v, service_id, info, registered_at),
                others,
                others.len() as int,
            ),
            now,
        ).contains((service_id, info.instance_id)),
        listing.contains(lease_from(service_id, info, registered_at)),
{
    let first = registered(v, service_id, info, registered_at);
    let after = written_all(first, others, others.len() as int);
    let key = (service_id, info.instance_id);
    let keys = lease_list_keys(listing);
    lemma_other_writes_keep_lease(first, others, service_id, info.instance_id, others.len() as int);
    assert(lease_of(first, service_id, info.instance_id) == Some(
        lease_from(service_id, info, registered_at),
    ));
    assert(expired_keys(after, now).contains(key));
    assert(keys.to_set().contains(key));
    let i = keys.index_of(key);
    assert(keys[i] == key);
    assert(listing[i] == lease_from(service_id, info, registered_at));
}

/// A lease that is not expired outlasts a round of eviction: what a round
/// takes away was expired, and every service stays known.
pub proof fn lemma_eviction_spares_live_leases(
    pre: RegistryView,
    post: RegistryView,
    now: u64,
    service_id: Seq<char>,
    instance_id: Seq<char>,
)
    requires
        evicted(pre, post, now),
        !expired_keys(pre, now).contains((service_id, instance_id)),
    ensures
        lease_of(post, service_id, instance_id) == lease_of(pre, service_id, instance_id),
        post.contains_key(service_id) == pre.contains_key(service_id),
{
    let removed = choose|removed: Set<LeaseKey>| evicts(removed, pre, post, now);
    assert(!removed.contains((service_id, instance_id)));
}

/// A round of eviction ends at most `MAX_LEASE_TO_EVICT` leases, and where
/// no more than that are expired it ends them all.
pub proof fn lemma_eviction_cap(pre: RegistryView, post: RegistryView, now: u64)
    requires
        evicted(pre, post, now),
    ensures
        exists|removed: Set<LeaseKey>|
            {
                &&& #[trigger] evicts(removed, pre, post, now)
                &&& removed.len() <= MAX_LEASE_TO_EVICT
                &&& removed.len() <= expired_keys(pre, now).len()
            },
        expired_keys(pre, now).len() <= MAX_LEASE_TO_EVICT ==> post == without(
            pre,
            expired_keys(pre, now),
        ),
{
    let removed = choose|removed: Set<LeaseKey>| evicts(removed, pre, post, now);
    let expired = expired_keys(pre, now);
    if expired.len() <= MAX_LEASE_TO_EVICT {
        vstd::set_lib::lemma_subset_equality(removed, expired);
    }
}

/// A write that a peer passed on is not passed on again. A request with
/// the header `Replication: true` is taken as passed on by a peer, and the
/// write of such a request leaves the queue of the writes that wait for
/// replication as it was, while any other write joins the queue.
pub proof fn lemma_replicated_write_is_not_queued(pending: Seq<DispatchView>, message: DispatchView)
    ensures
        marks_replication(Some(true_bytes())),
        !marks_replication(None),
        queued(pending, marks_replication(Some(true_bytes())), message) == pending,
        queued(pending, false, message) == pending.push(message),
{
}

/// Every request that passes a write on to a peer is marked as passed on,
/// so that the peer does not pass it on again.
pub proof fn lemma_requests_are_marked(node: NodeView, message: DispatchView)
    ensures
        marked_as_replication(request_for(node, message)),
{
    let request = request_for(node, message);
    let mark = replication_headers()[0];
    match message {
        DispatchView::Register(_, _) => {
            assert(request.headers[1] == mark);
        },
        DispatchView::Renew(_, _) => {
            assert(request.headers[0] == mark);
        },
        DispatchView::Cancel(_, _) => {
            assert(request.headers[0] == mark);
        },
    }
}

/// A renewal heals a peer that missed the registration. A peer that holds
/// no lease for the instance answers the renewal with "not found" and
/// stays as it was. The node that passed the renewal on then registers the
/// instance with the peer, in a request marked as passed on. Once the peer
/// has taken that registration at its time `now`, it holds the lease of
/// the instance with that time, and the node takes its answer as
/// delivered.
pub proof fn lemma_renewal_heals_peer(
    peer: RegistryView,
    node: NodeView,
    service_id: Seq<char>,
    info: InstanceInfoView,
    renewed_at: u64,
    now: u64,
)
    requires
        lease_of(peer, service_id, info.instance_id) is None,
    ensures
        lease_status(peer, service_id, info.instance_id) == NOT_FOUND,
        renewed(peer, service_id, info.instance_id, renewed_at) == peer,
        delivery_of(node, DispatchView::Renew(service_id, info), Reply::Status(NOT_FOUND))
            == DeliveryView::RegisterInstead(register_request(node, service_id, info)),
        register_request(node, service_id, info).body == Some(info),
        marked_as_replication(register_request(node, service_id, info)),
        lease_of(registered(peer, service_id, info, now), service_id, info.instance_id) == Some(
            lease_from(service_id, info, now),
        ),
        plain_delivery(Reply::Status(NO_CONTENT), NO_CONTENT) == DeliveryView::Delivered,
{
    lemma_requests_are_marked(node, DispatchView::Register(service_id, info));
}

} // verus!
