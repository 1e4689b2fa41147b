//! The lease store of one node.
//!
//! A lease records that an instance of a service is alive. It is created by
//! a registration, prolonged by a renewal, and ended by a cancellation or,
//! once it has gone without renewal for longer than its lifetime, by
//! eviction. Writes that did not come from a peer are queued for
//! replication in the same step that changes the store.

use vstd::prelude::*;
use crate::clock::{expired_at, is_expired_at, unix_time};
use crate::instance::{instance_views, InstanceInfo, InstanceInfoView};
use crate::server::dispatcher::{DispatchView, DispatcherMessage};
use crate::server::error::WatchtowerError;
use crate::server::eviction::{choose_victims, min_of, selects, MAX_LEASE_TO_EVICT};
use crate::strmap::StringMap;

verus! {

/// A lease: the instance it is for, the service the instance belongs to,
/// and the time of its last update in seconds since the epoch.
#[derive(Debug, PartialEq, Eq)]
pub struct LeaseInfo {
    pub service_id: String,
    pub instance_info: InstanceInfo,
    last_updated_timestamp: u64,
}

/// What a `LeaseInfo` holds, as plain mathematical values.
pub struct LeaseView {
    pub service_id: Seq<char>,
    pub instance_info: InstanceInfoView,
    pub last_updated_timestamp: u64,
}

impl View for LeaseInfo {
    type V = LeaseView;

    closed spec fn view(&self) -> LeaseView {
        LeaseView {
            service_id: self.service_id@,
            instance_info: self.instance_info@,
            last_updated_timestamp: self.last_updated_timestamp,
        }
    }
}

impl Clone for LeaseInfo {
    fn clone(&self) -> (r: Self)
        ensures
            r@ == self@,
    {
        LeaseInfo {
            service_id: self.service_id.clone(),
            instance_info: self.instance_info.clone(),
            last_updated_timestamp: self.last_updated_timestamp,
        }
    }
}

impl LeaseInfo {
    /// A lease for `instance_info` under `service_id`, last updated at
    /// `last_updated_timestamp`.
    pub fn new(service_id: String, instance_info: InstanceInfo, last_updated_timestamp: u64) -> (r: Self)
        ensures
            r@ == (LeaseView {
                service_id: service_id@,
                instance_info: instance_info@,
                last_updated_timestamp,
            }),
    {
        LeaseInfo { service_id, instance_info, last_updated_timestamp }
    }

    /// The service that the instance belongs to.
    pub fn service_id(&self) -> (r: &str)
        ensures
            r@ == self@.service_id,
    {
        self.service_id.as_str()
    }

    /// The instance that the lease is for.
    pub fn instance_info(&self) -> (r: &InstanceInfo)
        ensures
            r@ == self@.instance_info,
    {
        &self.instance_info
    }

    /// The time of the last update, in seconds since the epoch.
    pub fn last_updated_timestamp(&self) -> (r: u64)
        ensures
            r == self@.last_updated_timestamp,
    {
        self.last_updated_timestamp
    }

    /// Whether the lease has gone without an update for longer than its
    /// lifetime at time `now`.
    pub fn is_expired_at(&self, now: u64) -> (r: bool)
        ensures
            r == expired_at(self@.last_updated_timestamp, now),
    {
        is_expired_at(self.last_updated_timestamp, now)
    }

    /// Whether the lease is expired by the system clock. Fails when the
    /// clock stands before the epoch.
    pub fn is_expired(&self) -> (r: Result<bool, WatchtowerError>)
        ensures
            match r {
                Ok(expired) => exists|now: u64|
                    expired == #[trigger] expired_at(self@.last_updated_timestamp, now),
                Err(e) => e == WatchtowerError::InternalError,
            },
    {
        match unix_time() {
            Ok(now) => Ok(self.is_expired_at(now)),
            Err(e) => Err(WatchtowerError::from(e)),
        }
    }
}

/// The leases of one service, by instance identifier.
pub type LeaseMap = Map<Seq<char>, LeaseView>;

/// The leases of a node: for each known service, its leases by instance
/// identifier. A service without leases is known but drained.
pub type RegistryView = Map<Seq<char>, LeaseMap>;

/// The lease held for an instance of a service, if there is one.
pub open spec fn lease_of(v: RegistryView, service_id: Seq<char>, instance_id: Seq<char>) -> Option<
    LeaseView,
> {
    if v.contains_key(service_id) && v[service_id].contains_key(instance_id) {
        Some(v[service_id][instance_id])
    } else {
        None
    }
}

/// The leases of a service; none for a service that is not known.
pub open spec fn leases_of(v: RegistryView, service_id: Seq<char>) -> LeaseMap {
    if v.contains_key(service_id) {
        v[service_id]
    } else {
        Map::empty()
    }
}

/// The registry once `service_id` is known, with the leases it had.
pub open spec fn with_service(v: RegistryView, service_id: Seq<char>) -> RegistryView {
    v.insert(service_id, leases_of(v, service_id))
}

/// The registry after `info` was registered for `service_id` at time `now`.
pub open spec fn registered(
    v: RegistryView,
    service_id: Seq<char>,
    info: InstanceInfoView,
    now: u64,
) -> RegistryView {
    v.insert(
        service_id,
        leases_of(v, service_id).insert(
            info.instance_id,
            LeaseView { service_id, instance_info: info, last_updated_timestamp: now },
        ),
    )
}

/// The later of two times.
pub open spec fn later_of(a: u64, b: u64) -> u64 {
    if a <= b {
        b
    } else {
        a
    }
}

/// The registry after the lease of an instance was renewed at time `now`:
/// the time of the lease is `now`, or the time it had where that is the
/// later one, so that a renewal never moves the time of a lease backward.
/// Nothing changes where no such lease is held.
pub open spec fn renewed(
    v: RegistryView,
    service_id: Seq<char>,
    instance_id: Seq<char>,
    now: u64,
) -> RegistryView {
    match lease_of(v, service_id, instance_id) {
        Some(lease) => v.insert(
            service_id,
            v[service_id].insert(
                instance_id,
                LeaseView {
                    last_updated_timestamp: later_of(lease.last_updated_timestamp, now),
                    ..lease
                },
            ),
        ),
        None => v,
    }
}

/// The registry after the lease of an instance was cancelled. The service
/// stays known.
pub open spec fn cancelled(
    v: RegistryView,
    service_id: Seq<char>,
    instance_id: Seq<char>,
) -> RegistryView {
    if v.contains_key(service_id) {
        v.insert(service_id, v[service_id].remove(instance_id))
    } else {
        v
    }
}

/// The queue `pending` after a write that stands for `message`: a write
/// that came from a peer adds nothing.
pub open spec fn queued(pending: Seq<DispatchView>, is_replicated: bool, message: DispatchView) -> Seq<
    DispatchView,
> {
    if is_replicated {
        pending
    } else {
        pending.push(message)
    }
}

/// What a list of leases holds, as plain mathematical values.
pub open spec fn lease_list_views(leases: Seq<LeaseInfo>) -> Seq<LeaseView> {
    leases.map_values(|lease: LeaseInfo| lease@)
}

/// `listing` names each instance that holds a lease in `leases` once, with
/// the address that its lease records, and names nothing else.
pub open spec fn lists_instances(listing: Seq<InstanceInfoView>, leases: LeaseMap) -> bool {
    let ids = listing.map_values(|info: InstanceInfoView| info.instance_id);
    &&& ids.no_duplicates()
    &&& ids.to_set() == leases.dom()
    &&& listing.len() == leases.dom().len()
    &&& forall|i: int| 0 <= i < listing.len() ==> leases[#[trigger] ids[i]].instance_info == listing[i]
}

/// The service and instance identifiers that name a lease.
pub type LeaseKey = (Seq<char>, Seq<char>);

/// The identifiers that `lease` names.
pub open spec fn lease_key(lease: LeaseView) -> LeaseKey {
    (lease.service_id, lease.instance_info.instance_id)
}

/// The identifiers that a list of leases names, in its order.
pub open spec fn lease_list_keys(listing: Seq<LeaseView>) -> Seq<LeaseKey> {
    listing.map_values(|lease: LeaseView| lease_key(lease))
}

/// The identifiers under which a lease is held.
pub open spec fn lease_keys(v: RegistryView) -> Set<LeaseKey> {
    Set::new(|key: LeaseKey| lease_of(v, key.0, key.1) is Some)
}

/// The identifiers of the leases that are expired at time `now`.
pub open spec fn expired_keys(v: RegistryView, now: u64) -> Set<LeaseKey> {
    Set::new(
        |key: LeaseKey|
            lease_of(v, key.0, key.1) is Some && expired_at(
                lease_of(v, key.0, key.1)->0.last_updated_timestamp,
                now,
            ),
    )
}

/// `listing` holds each lease of `v` that is expired at time `now` once, as
/// `v` holds it, and holds nothing else.
pub open spec fn lists_expired(listing: Seq<LeaseView>, v: RegistryView, now: u64) -> bool {
    let keys = lease_list_keys(listing);
    &&& keys.no_duplicates()
    &&& keys.to_set() == expired_keys(v, now)
    &&& forall|i: int|
        0 <= i < listing.len() ==> lease_of(v, (#[trigger] keys[i]).0, keys[i].1) == Some(listing[i])
}

/// The registry without the leases that `removed` names. Every service
/// stays known.
pub open spec fn without(v: RegistryView, removed: Set<LeaseKey>) -> RegistryView {
    Map::new(
        |service_id: Seq<char>| v.contains_key(service_id),
        |service_id: Seq<char>|
            v[service_id].remove_keys(
                Set::new(|instance_id: Seq<char>| removed.contains((service_id, instance_id))),
            ),
    )
}

/// `post` is `pre` after a round of eviction at time `now` that ended the
/// leases that `removed` names: all of them were expired, and they are as
/// many as were expired, up to `MAX_LEASE_TO_EVICT`.
pub open spec fn evicts(
    removed: Set<LeaseKey>,
    pre: RegistryView,
    post: RegistryView,
    now: u64,
) -> bool {
    &&& removed.subset_of(expired_keys(pre, now))
    &&& expired_keys(pre, now).finite()
    &&& removed.finite()
    &&& removed.len() == min_of(expired_keys(pre, now).len() as int, MAX_LEASE_TO_EVICT as int)
    &&& post == without(pre, removed)
}

/// `post` is `pre` after a round of eviction at time `now`.
pub open spec fn evicted(pre: RegistryView, post: RegistryView, now: u64) -> bool {
    exists|removed: Set<LeaseKey>| evicts(removed, pre, post, now)
}

/// What the stored leases of one service hold.
spec fn lease_views(leases: Map<Seq<char>, LeaseInfo>) -> LeaseMap {
    leases.map_values(|lease: LeaseInfo| lease@)
}

/// Each lease of `leases` names `service_id` and the instance identifier
/// that it is stored under.
spec fn keyed(service_id: Seq<char>, leases: Map<Seq<char>, LeaseInfo>) -> bool {
    forall|instance_id: Seq<char>| #[trigger]
        leases.contains_key(instance_id) ==> leases[instance_id].service_id@ == service_id
            && leases[instance_id].instance_info.instance_id@ == instance_id
}

/// Each stored lease names the identifiers that it is stored under.
spec fn all_keyed(services: Map<Seq<char>, StringMap<LeaseInfo>>) -> bool {
    forall|service_id: Seq<char>| #[trigger]
        services.contains_key(service_id) ==> keyed(service_id, services[service_id]@)
}

/// What the stored leases of all services hold.
spec fn views_of(services: Map<Seq<char>, StringMap<LeaseInfo>>) -> RegistryView {
    services.map_values(|leases: StringMap<LeaseInfo>| lease_views(leases@))
}

/// What the queued messages hold.
spec fn messages_of(outbox: Seq<DispatcherMessage>) -> Seq<DispatchView> {
    outbox.map_values(|message: DispatcherMessage| message@)
}

/// The lease stored at `place`: the index of its service, and its index
/// among the leases of that service.
spec fn stored_at(store: Seq<StringMap<LeaseInfo>>, place: (int, int)) -> LeaseInfo {
    store[place.0].value_seq()[place.1]
}

/// Whether a lease is stored at `place`.
spec fn is_place(store: Seq<StringMap<LeaseInfo>>, place: (int, int)) -> bool {
    0 <= place.0 < store.len() && 0 <= place.1 < store[place.0].value_seq().len()
}

/// Whether a scan that has come to place `(a, b)` has passed `place`.
spec fn place_before(place: (int, int), a: int, b: int) -> bool {
    place.0 < a || (place.0 == a && place.1 < b)
}

/// `found` holds the leases that are expired at `now` among those stored
/// before place `(a, b)`, and `places` says where each one is stored.
spec fn collected(
    found: Seq<LeaseInfo>,
    places: Seq<(int, int)>,
    store: Seq<StringMap<LeaseInfo>>,
    now: u64,
    a: int,
    b: int,
) -> bool {
    &&& places.len() == found.len()
    &&& places.no_duplicates()
    &&& forall|i: int|
        0 <= i < places.len() ==> {
            &&& is_place(store, #[trigger] places[i])
            &&& place_before(places[i], a, b)
            &&& found[i]@ == stored_at(store, places[i])@
            &&& expired_at(found[i]@.last_updated_timestamp, now)
        }
    &&& forall|place: (int, int)|
        is_place(store, place) && place_before(place, a, b) && expired_at(
            stored_at(store, place)@.last_updated_timestamp,
            now,
        ) ==> #[trigger] places.contains(place)
}

/// The lease store of a node, together with the writes that wait to be
/// replicated to its peers.
pub struct ServiceRegistry {
    services: StringMap<StringMap<LeaseInfo>>,
    outbox: Vec<DispatcherMessage>,
}

impl View for ServiceRegistry {
    type V = RegistryView;

    /// The leases held, by service and instance identifier.
    closed spec fn view(&self) -> RegistryView {
        views_of(self.services@)
    }
}

impl ServiceRegistry {
    /// A lease is stored under the identifiers that it names.
    #[verifier::type_invariant]
    closed spec fn inv(&self) -> bool {
        all_keyed(self.services@)
    }

    /// The writes that wait to be replicated, oldest first.
    pub closed spec fn pending(&self) -> Seq<DispatchView> {
        messages_of(self.outbox@)
    }

    /// A registry without services and with nothing to replicate.
    pub fn new() -> (r: ServiceRegistry)
        ensures
            r@ == Map::<Seq<char>, LeaseMap>::empty(),
            r.pending() == Seq::<DispatchView>::empty(),
    {
        let r = ServiceRegistry { services: StringMap::new(), outbox: Vec::new() };
        assert(r@ =~= Map::<Seq<char>, LeaseMap>::empty());
        assert(r.pending() =~= Seq::<DispatchView>::empty());
        r
    }

    /// Queues `message` for replication unless the write came from a peer.
    fn enqueue(&mut self, is_replicated: bool, message: DispatcherMessage)
        ensures
            final(self)@ == old(self)@,
            final(self).pending() == queued(old(self).pending(), is_replicated, message@),
    {
        if !is_replicated {
            proof {
                use_type_invariant(&*self);
            }
            let mut outbox: Vec<DispatcherMessage> = Vec::new();
            core::mem::swap(&mut self.outbox, &mut outbox);
            outbox.push(message);
            self.outbox = outbox;
            assert(self.pending() =~= old(self).pending().push(message@));
        }
    }

    /// Stores `lease` under the identifiers that it names, in place of any
    /// lease stored there. The service becomes known if it was not.
    fn store(&mut self, lease: LeaseInfo)
        ensures
            final(self)@ == old(self)@.insert(
                lease@.service_id,
                leases_of(old(self)@, lease@.service_id).insert(
                    lease@.instance_info.instance_id,
                    lease@,
                ),
            ),
            final(self).pending() == old(self).pending(),
    {
        proof {
            use_type_invariant(&*self);
        }
        let ghost before = self.services@;
        let ghost stored = lease;
        let mut services: StringMap<StringMap<LeaseInfo>> = StringMap::new();
        core::mem::swap(&mut self.services, &mut services);
        let mut leases = match services.remove(lease.service_id.as_str()) {
            Some(leases) => leases,
            None => StringMap::new(),
        };
        let ghost leases_before = leases@;
        let service_id = lease.service_id.clone();
        leases.insert(lease.instance_info.instance_id.clone(), lease);
        let ghost leases_after = leases@;
        services.insert(service_id, leases);
        proof {
            assert(keyed(stored.service_id@, leases_after));
            assert(all_keyed(services@));
            assert(lease_views(leases_before) =~= leases_of(views_of(before), stored.service_id@));
            assert(lease_views(leases_after) =~= lease_views(leases_before).insert(
                stored.instance_info.instance_id@,
                stored@,
            ));
            assert(views_of(services@) =~= views_of(before).insert(
                stored.service_id@,
                lease_views(leases_after),
            ));
        }
        self.services = services;
    }

    /// Registers `instance_info` for `service_id` with `now` as the time of
    /// the lease, in place of any lease that the instance held. The service
    /// becomes known if it was not.
    pub fn register_instance_at(
        &mut self,
        service_id: &str,
        instance_info: InstanceInfo,
        is_replicated: bool,
        now: u64,
    )
        ensures
            final(self)@ == registered(old(self)@, service_id@, instance_info@, now),
            is_replicated ==> final(self).pending() == old(self).pending(),
            final(self).pending() == queued(
                old(self).pending(),
                is_replicated,
                DispatchView::Register(service_id@, instance_info@),
            ),
    {
        self.store(
            LeaseInfo {
                service_id: service_id.to_owned(),
                instance_info: instance_info.clone(),
                last_updated_timestamp: now,
            },
        );
        self.enqueue(is_replicated, DispatcherMessage::Register(service_id.to_owned(), instance_info));
    }

    /// Registers `instance_info` for `service_id` with the reading of the
    /// system clock as the time of the lease. When the clock stands before
    /// the epoch the registration fails, and the service is known all the
    /// same.
    pub fn register_instance(
        &mut self,
        service_id: &str,
        instance_info: InstanceInfo,
        is_replicated: bool,
    ) -> (r: Result<(), WatchtowerError>)
        ensures
            is_replicated ==> final(self).pending() == old(self).pending(),
            match r {
                Ok(()) => exists|now: u64|
                    {
                        &&& final(self)@ == #[trigger] registered(
                            old(self)@,
                            service_id@,
                            instance_info@,
                            now,
                        )
                        &&& final(self).pending() == queued(
                            old(self).pending(),
                            is_replicated,
                            DispatchView::Register(service_id@, instance_info@),
                        )
                    },
                Err(e) => {
                    &&& e == WatchtowerError::InternalError
                    &&& final(self)@ == with_service(old(self)@, service_id@)
                    &&& final(self).pending() == old(self).pending()
                },
            },
    {
        self.ensure_service(service_id);
        match unix_time() {
            Ok(now) => {
                let ghost known = self@;
                self.register_instance_at(service_id, instance_info, is_replicated, now);
                assert(registered(known, service_id@, instance_info@, now) =~= registered(
                    old(self)@,
                    service_id@,
                    instance_info@,
                    now,
                ));
                Ok(())
            },
            Err(e) => Err(WatchtowerError::from(e)),
        }
    }

    /// Makes `service_id` a known service, without leases if it is new.
    fn ensure_service(&mut self, service_id: &str)
        ensures
            final(self)@ == with_service(old(self)@, service_id@),
            final(self).pending() == old(self).pending(),
    {
        proof {
            use_type_invariant(&*self);
        }
        if !self.services.contains_key(service_id) {
            let ghost before = self.services@;
            let mut services: StringMap<StringMap<LeaseInfo>> = StringMap::new();
            core::mem::swap(&mut self.services, &mut services);
            services.insert(service_id.to_owned(), StringMap::new());
            proof {
                assert(all_keyed(services@));
                assert(lease_views(Map::<Seq<char>, LeaseInfo>::empty()) =~= Map::<
                    Seq<char>,
                    LeaseView,
                >::empty());
                assert(views_of(services@) =~= with_service(views_of(before), service_id@));
            }
            self.services = services;
        } else {
            assert(self@ =~= with_service(self@, service_id@));
        }
    }

    /// Renews the lease of an instance at time `now`, if the instance holds
    /// one, and says whether it does. The time of the lease becomes `now`
    /// unless it is later than `now` already: a renewal never moves it
    /// backward.
    pub fn renew_lease_at(
        &mut self,
        service_id: &str,
        instance_id: &str,
        is_replicated: bool,
        now: u64,
    ) -> (found: bool)
        ensures
            found == (lease_of(old(self)@, service_id@, instance_id@) is Some),
            final(self)@ == renewed(old(self)@, service_id@, instance_id@, now),
            is_replicated ==> final(self).pending() == old(self).pending(),
            final(self).pending() == if found {
                queued(
                    old(self).pending(),
                    is_replicated,
                    DispatchView::Renew(
                        service_id@,
                        old(self)@[service_id@][instance_id@].instance_info,
                    ),
                )
            } else {
                old(self).pending()
            },
    {
        proof {
            use_type_invariant(&*self);
        }
        let (info, held_since) = match self.find(service_id, instance_id) {
            Some(lease) => (lease.instance_info.clone(), lease.last_updated_timestamp),
            None => {
                return false;
            },
        };
        self.store(
            LeaseInfo {
                service_id: service_id.to_owned(),
                instance_info: info.clone(),
                last_updated_timestamp: if held_since <= now {
                    now
                } else {
                    held_since
                },
            },
        );
        self.enqueue(is_replicated, DispatcherMessage::Renew(service_id.to_owned(), info));
        true
    }

    /// Renews the lease of an instance with the reading of the system clock
    /// and says whether the instance holds a lease. The clock is read only
    /// for a lease that is held; when it stands before the epoch the
    /// renewal fails and nothing changes.
    pub fn renew_lease(
        &mut self,
        service_id: &str,
        instance_id: &str,
        is_replicated: bool,
    ) -> (r: Result<bool, WatchtowerError>)
        ensures
            is_replicated ==> final(self).pending() == old(self).pending(),
            match r {
                Ok(found) => exists|now: u64|
                    {
                        &&& found == (lease_of(old(self)@, service_id@, instance_id@) is Some)
                        &&& final(self)@ == #[trigger] renewed(
                            old(self)@,
                            service_id@,
                            instance_id@,
                            now,
                        )
                        &&& final(self).pending() == if found {
                            queued(
                                old(self).pending(),
                                is_replicated,
                                DispatchView::Renew(
                                    service_id@,
                                    old(self)@[service_id@][instance_id@].instance_info,
                                ),
                            )
                        } else {
                            old(self).pending()
                        }
                    },
                Err(e) => {
                    &&& e == WatchtowerError::InternalError
                    &&& lease_of(old(self)@, service_id@, instance_id@) is Some
                    &&& final(self)@ == old(self)@
                    &&& final(self).pending() == old(self).pending()
                },
            },
    {
        if self.find(service_id, instance_id).is_none() {
            assert(self@ == renewed(self@, service_id@, instance_id@, 0));
            return Ok(false);
        }
        match unix_time() {
            Ok(now) => Ok(self.renew_lease_at(service_id, instance_id, is_replicated, now)),
            Err(e) => Err(WatchtowerError::from(e)),
        }
    }

    /// Ends the lease of an instance and returns it, if the instance holds
    /// one. The service stays known.
    pub fn cancel_lease(
        &mut self,
        service_id: &str,
        instance_id: &str,
        is_replicated: bool,
    ) -> (r: Option<LeaseInfo>)
        ensures
            final(self)@ == cancelled(old(self)@, service_id@, instance_id@),
            is_replicated ==> final(self).pending() == old(self).pending(),
            match r {
                Some(lease) => lease_of(old(self)@, service_id@, instance_id@) == Some(lease@),
                None => lease_of(old(self)@, service_id@, instance_id@) is None,
            },
            final(self).pending() == if r is Some {
                queued(
                    old(self).pending(),
                    is_replicated,
                    DispatchView::Cancel(service_id@, instance_id@),
                )
            } else {
                old(self).pending()
            },
    {
        proof {
            use_type_invariant(&*self);
        }
        let ghost before = self.services@;
        let mut services: StringMap<StringMap<LeaseInfo>> = StringMap::new();
        core::mem::swap(&mut self.services, &mut services);
        let removed = match services.remove(service_id) {
            Some(mut leases) => {
                let ghost leases_before = leases@;
                let removed = leases.remove(instance_id);
                let ghost leases_after = leases@;
                services.insert(service_id.to_owned(), leases);
                proof {
                    assert(keyed(service_id@, leases_after));
                    assert(all_keyed(services@));
                    assert(lease_views(leases_after) =~= lease_views(leases_before).remove(
                        instance_id@,
                    ));
                    assert(views_of(services@) =~= views_of(before).insert(
                        service_id@,
                        lease_views(leases_after),
                    ));
                }
                removed
            },
            None => {
                assert(services@ =~= before);
                None
            },
        };
        self.services = services;
        if removed.is_some() {
            self.enqueue(
                is_replicated,
                DispatcherMessage::Cancel(service_id.to_owned(), instance_id.to_owned()),
            );
        }
        removed
    }

    /// Ends the lease that `victim` names, as a round of eviction does:
    /// nothing is queued for the peers, who evict on their own. The lease
    /// is ended as the registry holds it now, also where it was renewed
    /// since `victim` was listed.
    pub fn evict_lease(&mut self, victim: &LeaseInfo) -> (r: Option<LeaseInfo>)
        ensures
            final(self)@ == cancelled(
                old(self)@,
                victim@.service_id,
                victim@.instance_info.instance_id,
            ),
            final(self).pending() == old(self).pending(),
            match r {
                Some(lease) => lease_of(
                    old(self)@,
                    victim@.service_id,
                    victim@.instance_info.instance_id,
                ) == Some(lease@),
                None => lease_of(
                    old(self)@,
                    victim@.service_id,
                    victim@.instance_info.instance_id,
                ) is None,
            },
    {
        self.cancel_lease(
            victim.service_id.as_str(),
            victim.instance_info.instance_id.as_str(),
            true,
        )
    }

    /// The stored lease of an instance.
    fn find(&self, service_id: &str, instance_id: &str) -> (r: Option<&LeaseInfo>)
        ensures
            match r {
                Some(lease) => {
                    &&& lease_of(self@, service_id@, instance_id@) == Some(lease@)
                    &&& lease.service_id@ == service_id@
                    &&& lease.instance_info.instance_id@ == instance_id@
                },
                None => lease_of(self@, service_id@, instance_id@) is None,
            },
    {
        proof {
            use_type_invariant(self);
        }
        match self.services.get(service_id) {
            Some(leases) => leases.get(instance_id),
            None => None,
        }
    }

    /// The lease that an instance of a service holds.
    pub fn get_instance(&self, service_id: &str, instance_id: &str) -> (r: Option<LeaseInfo>)
        ensures
            match r {
                Some(lease) => lease_of(self@, service_id@, instance_id@) == Some(lease@),
                None => lease_of(self@, service_id@, instance_id@) is None,
            },
    {
        match self.find(service_id, instance_id) {
            Some(lease) => Some(lease.clone()),
            None => None,
        }
    }

    /// The instances that hold a lease for `service_id`: none for a service
    /// that is not known, and an empty list for one that is known but
    /// drained.
    pub fn get_all_instances(&self, service_id: &str) -> (r: Option<Vec<InstanceInfo>>)
        ensures
            match r {
                Some(instances) => self@.contains_key(service_id@) && lists_instances(
                    instance_views(instances@),
                    self@[service_id@],
                ),
                None => !self@.contains_key(service_id@),
            },
    {
        proof {
            use_type_invariant(self);
        }
        let leases = match self.services.get(service_id) {
            Some(leases) => leases,
            None => {
                return None;
            },
        };
        proof {
            use_type_invariant(leases);
            leases.lemma_entries();
        }
        let ghost keys = leases.key_seq();
        let ghost values = leases.value_seq();
        let mut instances: Vec<InstanceInfo> = Vec::new();
        let n = leases.len();
        let mut i: usize = 0;
        while i < n
            invariant
                i <= n,
                n == keys.len(),
                keys == leases.key_seq(),
                values == leases.value_seq(),
                keys.len() == values.len(),
                instances.len() == i,
                forall|k: int| 0 <= k < i ==> (#[trigger] instances[k])@ == values[k].instance_info@,
            decreases n - i,
        {
            let lease = leases.value_at(i);
            instances.push(lease.instance_info.clone());
            i = i + 1;
        }
        proof {
            let listing = instance_views(instances@);
            let ids = listing.map_values(|info: InstanceInfoView| info.instance_id);
            let map = self@[service_id@];
            assert(map == lease_views(leases@));
            assert(map.dom() =~= leases@.dom());
            assert forall|k: int| 0 <= k < listing.len() implies #[trigger] ids[k] == keys[k]
                && map[ids[k]].instance_info == listing[k] by {
                assert(leases@.contains_key(keys[k]));
                assert(leases@[keys[k]] == values[k]);
                assert(listing[k] == instances[k]@);
            }
            assert(ids =~= keys);
        }
        Some(instances)
    }

    /// Hands out the writes that wait to be replicated, oldest first, and
    /// leaves none waiting.
    pub fn take_dispatches(&mut self) -> (r: Vec<DispatcherMessage>)
        ensures
            final(self)@ == old(self)@,
            final(self).pending() == Seq::<DispatchView>::empty(),
            r@.map_values(|message: DispatcherMessage| message@) == old(self).pending(),
    {
        proof {
            use_type_invariant(&*self);
        }
        let mut outbox: Vec<DispatcherMessage> = Vec::new();
        core::mem::swap(&mut self.outbox, &mut outbox);
        assert(self.pending() =~= Seq::<DispatchView>::empty());
        outbox
    }

    /// What a full scan of the store has collected is the list of the
    /// expired leases.
    proof fn lemma_collected_lists(&self, found: Seq<LeaseInfo>, places: Seq<(int, int)>, now: u64)
        requires
            self.inv(),
            self.services.inv(),
            forall|a: int|
                0 <= a < self.services.value_seq().len() ==> (
                #[trigger] self.services.value_seq()[a]).inv(),
            collected(
                found,
                places,
                self.services.value_seq(),
                now,
                self.services.value_seq().len() as int,
                0,
            ),
        ensures
            lists_expired(lease_list_views(found), self@, now),
    {
        let ks = self.services.key_seq();
        let store = self.services.value_seq();
        let listing = lease_list_views(found);
        let keys = lease_list_keys(listing);
        self.services.lemma_entries();
        assert forall|i: int| 0 <= i < places.len() implies {
            let place = places[i];
            &&& #[trigger] keys[i] == (ks[place.0], store[place.0].key_seq()[place.1])
            &&& lease_of(self@, keys[i].0, keys[i].1) == Some(listing[i])
            &&& expired_keys(self@, now).contains(keys[i])
        } by {
            let place = places[i];
            let leases = store[place.0];
            leases.lemma_entries();
            let service_id = ks[place.0];
            let instance_id = leases.key_seq()[place.1];
            assert(self.services@.contains_key(service_id));
            assert(self.services@[service_id] == leases);
            assert(leases@.contains_key(instance_id));
            assert(leases@[instance_id] == stored_at(store, place));
            assert(keyed(service_id, leases@));
            assert(listing[i] == found[i]@);
        }
        assert forall|i: int, j: int| 0 <= i < keys.len() && 0 <= j < keys.len() && i != j implies keys[i]
            != keys[j] by {
            if keys[i] == keys[j] {
                store[places[i].0].lemma_entries();
                assert(places[i].0 == places[j].0);
                assert(places[i].1 == places[j].1);
                assert(places[i] == places[j]);
            }
        }
        assert forall|key: LeaseKey| expired_keys(self@, now).contains(key) implies keys.to_set().contains(
            key,
        ) by {
            assert(self.services@.contains_key(key.0));
            assert(ks.to_set().contains(key.0));
            let a = ks.index_of(key.0);
            let leases = store[a];
            assert(self.services@[ks[a]] == leases);
            leases.lemma_entries();
            assert(lease_views(leases@).contains_key(key.1));
            assert(leases.key_seq().to_set().contains(key.1));
            let b = leases.key_seq().index_of(key.1);
            assert(leases@[leases.key_seq()[b]] == stored_at(store, (a, b)));
            assert(is_place(store, (a, b)));
            assert(places.contains((a, b)));
            let i = places.index_of((a, b));
            assert(keys[i] == key);
        }
        assert(keys.to_set() =~= expired_keys(self@, now));
    }

    /// The leases that are expired at time `now`.
    pub fn get_expired_instances_at(&self, now: u64) -> (r: Vec<LeaseInfo>)
        ensures
            lists_expired(lease_list_views(r@), self@, now),
    {
        proof {
            use_type_invariant(self);
            use_type_invariant(&self.services);
            self.services.lemma_entries();
        }
        let ghost store = self.services.value_seq();
        let mut expired: Vec<LeaseInfo> = Vec::new();
        let ghost mut places: Seq<(int, int)> = Seq::empty();
        let n = self.services.len();
        let mut a: usize = 0;
        while a < n
            invariant
                a <= n,
                n == self.services.key_seq().len(),
                self.services.inv(),
                store == self.services.value_seq(),
                store.len() == n,
                forall|k: int| 0 <= k < a ==> (#[trigger] store[k]).inv(),
                collected(expired@, places, store, now, a as int, 0),
            decreases n - a,
        {
            proof {
                self.services.lemma_entries();
            }
            let leases = self.services.value_at(a);
            proof {
                use_type_invariant(leases);
                leases.lemma_entries();
            }
            let m = leases.len();
            let mut b: usize = 0;
            while b < m
                invariant
                    a < n,
                    b <= m,
                    store.len() == n,
                    leases == store[a as int],
                    m == leases.key_seq().len(),
                    m == leases.value_seq().len(),
                    collected(expired@, places, store, now, a as int, b as int),
                decreases m - b,
            {
                let lease = leases.value_at(b);
                if lease.is_expired_at(now) {
                    let ghost before = places;
                    expired.push(lease.clone());
                    proof {
                        places = places.push((a as int, b as int));
                        assert forall|place: (int, int)|
                            is_place(store, place) && place_before(place, a as int, b + 1)
                                && expired_at(
                                stored_at(store, place)@.last_updated_timestamp,
                                now,
                            ) implies #[trigger] places.contains(place) by {
                            if place == (a as int, b as int) {
                                assert(places[before.len() as int] == place);
                            } else {
                                assert(before.contains(place));
                                let i = before.index_of(place);
                                assert(places[i] == place);
                            }
                        }
                    }
                } else {
                    proof {
                        assert forall|place: (int, int)|
                            is_place(store, place) && place_before(place, a as int, b + 1)
                                && expired_at(
                                stored_at(store, place)@.last_updated_timestamp,
                                now,
                            ) implies #[trigger] places.contains(place) by {
                            assert(place != (a as int, b as int));
                            assert(place_before(place, a as int, b as int));
                        }
                    }
                }
                b = b + 1;
            }
            proof {
                assert forall|place: (int, int)|
                    is_place(store, place) && place_before(place, a + 1, 0) && expired_at(
                        stored_at(store, place)@.last_updated_timestamp,
                        now,
                    ) implies #[trigger] places.contains(place) by {
                    assert(place_before(place, a as int, m as int));
                }
                assert forall|i: int| 0 <= i < places.len() implies place_before(
                    #[trigger] places[i],
                    a + 1,
                    0,
                ) by {
                    assert(place_before(places[i], a as int, m as int));
                }
            }
            a = a + 1;
        }
        proof {
            self.lemma_collected_lists(expired@, places, now);
        }
        expired
    }

    /// Whether any lease is held.
    fn has_lease(&self) -> (r: bool)
        ensures
            r == exists|key: LeaseKey| #[trigger] lease_keys(self@).contains(key),
    {
        proof {
            use_type_invariant(self);
            use_type_invariant(&self.services);
            self.services.lemma_entries();
        }
        let ghost ks = self.services.key_seq();
        let ghost store = self.services.value_seq();
        let n = self.services.len();
        let mut a: usize = 0;
        while a < n
            invariant
                a <= n,
                self.services.inv(),
                ks == self.services.key_seq(),
                store == self.services.value_seq(),
                ks.len() == n,
                store.len() == n,
                forall|k: int| 0 <= k < a ==> (#[trigger] store[k])@.dom() == Set::<Seq<char>>::empty(),
            decreases n - a,
        {
            let leases = self.services.value_at(a);
            proof {
                self.services.lemma_entries();
                use_type_invariant(leases);
                leases.lemma_entries();
            }
            if leases.len() > 0 {
                proof {
                    let key = (ks[a as int], leases.key_seq()[0]);
                    assert(self.services@[ks[a as int]] == leases);
                    assert(leases@.contains_key(leases.key_seq()[0]));
                    assert(lease_keys(self@).contains(key));
                }
                return true;
            }
            proof {
                assert(leases.key_seq().to_set() =~= Set::<Seq<char>>::empty());
            }
            a = a + 1;
        }
        proof {
            assert forall|key: LeaseKey| !#[trigger] lease_keys(self@).contains(key) by {
                if lease_keys(self@).contains(key) {
                    assert(ks.to_set().contains(key.0));
                    let k = ks.index_of(key.0);
                    assert(self.services@[ks[k]] == store[k]);
                    assert(store[k]@.dom().contains(key.1));
                }
            }
        }
        false
    }

    /// The leases that are expired by the system clock. The clock is read
    /// once, and only when a lease is held; when it stands before the epoch
    /// the call fails.
    pub fn get_expired_instances(&self) -> (r: Result<Vec<LeaseInfo>, WatchtowerError>)
        ensures
            match r {
                Ok(expired) => exists|now: u64| #[trigger]
                    lists_expired(lease_list_views(expired@), self@, now),
                Err(e) => {
                    &&& e == WatchtowerError::InternalError
                    &&& exists|key: LeaseKey| #[trigger] lease_keys(self@).contains(key)
                },
            },
    {
        if !self.has_lease() {
            let expired: Vec<LeaseInfo> = Vec::new();
            proof {
                assert forall|key: LeaseKey| !expired_keys(self@, 0).contains(key) by {
                    if expired_keys(self@, 0).contains(key) {
                        assert(lease_keys(self@).contains(key));
                    }
                }
                assert(lease_list_keys(lease_list_views(expired@)).to_set() =~= expired_keys(self@, 0));
            }
            let r = Ok(expired);
            assert(lists_expired(lease_list_views(r->Ok_0@), self@, 0));
            return r;
        }
        match unix_time() {
            Ok(now) => {
                let r = Ok(self.get_expired_instances_at(now));
                assert(lists_expired(lease_list_views(r->Ok_0@), self@, now));
                r
            },
            Err(e) => Err(WatchtowerError::from(e)),
        }
    }

    /// Ends up to `MAX_LEASE_TO_EVICT` of the leases in `expired`, drawn at
    /// random, and queues nothing for the peers, who evict on their own.
    fn evict_expired(&mut self, expired: Vec<LeaseInfo>, Ghost(now): Ghost<u64>)
        requires
            lists_expired(lease_list_views(expired@), old(self)@, now),
        ensures
            evicted(old(self)@, final(self)@, now),
            final(self).pending() == old(self).pending(),
    {
        let ghost pre = self@;
        let ghost expired_views = lease_list_views(expired@);
        let ghost expired_ids = lease_list_keys(expired_views);
        let victims = choose_victims(expired);
        let ghost victim_views = lease_list_views(victims@);
        let ghost victim_ids = lease_list_keys(victim_views);
        proof {
            let places = choose|places: Seq<int>| selects(places, victims@, expired@);
            assert forall|i: int| 0 <= i < victim_ids.len() implies #[trigger] victim_ids[i]
                == expired_ids[places[i]] by {
                assert(victims@[i] == expired@[places[i]]);
            }
            assert forall|i: int, j: int|
                0 <= i < victim_ids.len() && 0 <= j < victim_ids.len() && i != j implies victim_ids[i]
                != victim_ids[j] by {
                assert(places[i] != places[j]);
            }
            assert forall|i: int| 0 <= i < victim_ids.len() implies expired_keys(pre, now).contains(
                #[trigger] victim_ids[i],
            ) by {
                assert(expired_ids.contains(expired_ids[places[i]]));
                assert(expired_ids.to_set().contains(victim_ids[i]));
            }
            vstd::seq_lib::seq_to_set_is_finite(expired_ids);
            expired_ids.unique_seq_to_set();
            vstd::seq_lib::seq_to_set_is_finite(victim_ids);
            victim_ids.unique_seq_to_set();
            assert forall|service_id: Seq<char>| #[trigger] pre.contains_key(service_id) implies pre[service_id]
                =~= without(pre, victim_ids.subrange(0, 0).to_set())[service_id] by {}
            assert(self@ =~= without(pre, victim_ids.subrange(0, 0).to_set()));
        }
        let n = victims.len();
        let mut i: usize = 0;
        while i < n
            invariant
                i <= n,
                n == victims.len(),
                victim_views == lease_list_views(victims@),
                victim_ids == lease_list_keys(victim_views),
                forall|k: int|
                    0 <= k < victim_ids.len() ==> expired_keys(pre, now).contains(
                        #[trigger] victim_ids[k],
                    ),
                self@ == without(pre, victim_ids.subrange(0, i as int).to_set()),
                self.pending() == old(self).pending(),
            decreases n - i,
        {
            let victim = &victims[i];
            let ghost done = victim_ids.subrange(0, i as int);
            let ghost key = victim_ids[i as int];
            let ghost current = self@;
            proof {
                assert(victim_views[i as int] == victim@);
                assert(key == (victim.service_id@, victim.instance_info.instance_id@));
            }
            self.evict_lease(victim);
            proof {
                let next = victim_ids.subrange(0, i + 1);
                assert(next =~= done.push(key));
                assert(next.to_set() =~= done.to_set().insert(key)) by {
                    assert forall|other: LeaseKey| next.to_set().contains(other) <==> done.to_set().insert(
                        key,
                    ).contains(other) by {
                        vstd::seq_lib::lemma_seq_contains_after_push(done, key, other);
                    }
                }
                assert(expired_keys(pre, now).contains(key));
                assert(current.contains_key(key.0));
                assert forall|service_id: Seq<char>| #[trigger]
                    self@.contains_key(service_id) implies self@[service_id] =~= without(
                    pre,
                    next.to_set(),
                )[service_id] by {}
                assert(self@ =~= without(pre, next.to_set()));
            }
            i = i + 1;
        }
        proof {
            assert(victim_ids.subrange(0, n as int) =~= victim_ids);
            let removed = victim_ids.to_set();
            assert(removed.subset_of(expired_keys(pre, now))) by {
                assert forall|key: LeaseKey| removed.contains(key) implies expired_keys(pre, now).contains(
                    key,
                ) by {
                    let k = victim_ids.index_of(key);
                    assert(victim_ids[k] == key);
                }
            }
            assert(evicts(removed, pre, self@, now));
        }
    }

    /// Runs one round of eviction for time `now`: ends the leases that are
    /// expired, or `MAX_LEASE_TO_EVICT` of them drawn at random where more
    /// are expired. Nothing is queued for the peers.
    pub fn evict_at(&mut self, now: u64)
        ensures
            evicted(old(self)@, final(self)@, now),
            final(self).pending() == old(self).pending(),
    {
        let expired = self.get_expired_instances_at(now);
        self.evict_expired(expired, Ghost(now));
    }

    /// Runs one round of eviction by the system clock. The clock is read
    /// once, and only when a lease is held; when it stands before the epoch
    /// the round fails and nothing changes.
    pub fn evict(&mut self) -> (r: Result<(), WatchtowerError>)
        ensures
            final(self).pending() == old(self).pending(),
            match r {
                Ok(()) => exists|now: u64| #[trigger] evicted(old(self)@, final(self)@, now),
                Err(e) => {
                    &&& e == WatchtowerError::InternalError
                    &&& final(self)@ == old(self)@
                    &&& exists|key: LeaseKey| #[trigger] lease_keys(old(self)@).contains(key)
                },
            },
    {
        if !self.has_lease() {
            proof {
                let pre = self@;
                let none = Set::<LeaseKey>::empty();
                assert forall|key: LeaseKey| !expired_keys(pre, 0).contains(key) by {
                    if expired_keys(pre, 0).contains(key) {
                        assert(lease_keys(pre).contains(key));
                    }
                }
                assert(expired_keys(pre, 0) =~= none);
                assert forall|service_id: Seq<char>| #[trigger]
                    pre.contains_key(service_id) implies pre[service_id] =~= without(
                    pre,
                    none,
                )[service_id] by {}
                assert(pre =~= without(pre, none));
                assert(evicts(none, pre, pre, 0));
                assert(evicted(old(self)@, self@, 0));
            }
            return Ok(());
        }
        match unix_time() {
            Ok(now) => {
                self.evict_at(now);
                Ok(())
            },
            Err(e) => Err(WatchtowerError::from(e)),
        }
    }

    /// Runs the periodic work of the registry: one round of eviction.
    pub fn run(&mut self) -> (r: Result<(), WatchtowerError>)
        ensures
            final(self).pending() == old(self).pending(),
            match r {
                Ok(()) => exists|now: u64| #[trigger] evicted(old(self)@, final(self)@, now),
                Err(e) => {
                    &&& e == WatchtowerError::InternalError
                    &&& final(self)@ == old(self)@
                    &&& exists|key: LeaseKey| #[trigger] lease_keys(old(self)@).contains(key)
                },
            },
    {
        self.evict()
    }
}

} // verus!
