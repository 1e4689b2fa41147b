//! The client of the registry: registration of the process itself with a
//! heartbeat, and lookup of other services with rotation across their
//! instances.
//!
//! A client holds at most one registration. While it holds one, the caller
//! renews the lease at the heartbeat interval, and stops when the client
//! no longer holds that registration. The instances of a service are
//! fetched when the client has no list of them younger than the lifetime
//! of a lease.

use vstd::prelude::*;
use vstd::string::*;
use crate::client::error::WatchtowerError;
use crate::client::http_client::HttpClient;
use crate::client::load_balancer::{advanced, fetched, Service, ServiceView};
use crate::clock::{expired_at, unix_time};
use crate::instance::{instance_views, InstanceInfo, InstanceInfoView};
use crate::strmap::StringMap;
use crate::text::{decimal, string_views, to_decimal};

pub mod error;
pub mod http_client;
pub mod load_balancer;

verus! {

/// The seconds between two renewals of the lease of a registered client.
pub const HEARTBEAT_INTERVAL_SEC: u64 = 15;

/// The address of an instance, as host, colon and port.
pub open spec fn address_of(info: InstanceInfoView) -> Seq<char> {
    info.ip_addr + ":"@ + decimal(info.port as nat)
}

/// Writes the address of an instance as host, colon and port.
pub fn instance_address(info: &InstanceInfo) -> (r: String)
    ensures
        r@ == address_of(info@),
{
    let mut r = info.ip_addr.clone();
    r.append(":");
    let port = to_decimal(info.port);
    r.append(port.as_str());
    r
}

/// Calls `uuid::Uuid::new_v4`, which draws a random UUID from the
/// operating system's generator, and writes it with `to_string`. Nothing
/// is claimed of the text: no two draws need agree. The call panics where
/// the operating system hands out no random bytes.
#[verifier::external_body]
fn new_instance_id() -> (r: String) {
    uuid::Uuid::new_v4().to_string()
}

/// A registration: the service, and the instance that was registered for
/// it.
pub type Registration = (Seq<char>, InstanceInfoView);

/// What a client that holds `held` answers to the wish to register: it
/// takes up a registration only where it holds none.
pub open spec fn register_outcome(held: Option<Registration>) -> Result<(), WatchtowerError> {
    if held is Some {
        Err(WatchtowerError::InstanceAlreadyRegistered)
    } else {
        Ok(())
    }
}

/// What a client that held `held` holds after the wish to register
/// `wanted`.
pub open spec fn after_register(held: Option<Registration>, wanted: Registration) -> Option<
    Registration,
> {
    if held is Some {
        held
    } else {
        Some(wanted)
    }
}

/// Whether `held` is the registration of the instance `instance_id`.
pub open spec fn holds_instance(held: Option<Registration>, instance_id: Seq<char>) -> bool {
    held matches Some((_, info)) && info.instance_id == instance_id
}

/// What a client that held `held` holds once no registry has accepted the
/// registration of the instance `instance_id`: that registration is given
/// up. A registration of another instance, taken up in the meantime, is
/// not touched.
pub open spec fn after_refusal(held: Option<Registration>, instance_id: Seq<char>) -> Option<
    Registration,
> {
    if holds_instance(held, instance_id) {
        None
    } else {
        held
    }
}

/// A client holds at most one registration. Once it has taken one up,
/// whatever it held before, it refuses every further one as already
/// registered until the registration is cancelled; a client that holds
/// none takes one up. A registration that no registry accepted is not
/// held: the client takes up the next one.
pub proof fn lemma_at_most_one_registration(
    held: Option<Registration>,
    first: Registration,
    second: Registration,
)
    ensures
        register_outcome(after_register(held, first)) == Err::<(), WatchtowerError>(
            WatchtowerError::InstanceAlreadyRegistered,
        ),
        after_register(after_register(held, first), second) == after_register(held, first),
        register_outcome(None) == Ok::<(), WatchtowerError>(()),
        after_register(None, second) == Some(second),
        after_refusal(after_register(None, first), first.1.instance_id) is None,
        register_outcome(after_refusal(after_register(None, first), first.1.instance_id))
            == Ok::<(), WatchtowerError>(()),
{
}

spec fn registration_view(held: Option<(String, InstanceInfo)>) -> Option<Registration> {
    match held {
        Some((service_id, info)) => Some((service_id@, info@)),
        None => None,
    }
}

spec fn service_views(services: Map<Seq<char>, Service>) -> Map<Seq<char>, ServiceView> {
    services.map_values(|service: Service| service@)
}

spec fn all_usable(services: Map<Seq<char>, Service>) -> bool {
    forall|service_id: Seq<char>| #[trigger]
        services.contains_key(service_id) ==> services[service_id]@.cursor
            < services[service_id]@.instances.len()
}

/// The state of a client: its registries, the lists of instances that it
/// has fetched, and its registration, if it holds one.
pub struct WatchtowerClient {
    http_client: HttpClient,
    services: StringMap<Service>,
    instance_info: Option<(String, InstanceInfo)>,
}

/// Every list of `cache` has an instance at its cursor: none is empty.
pub open spec fn lists_usable(cache: Map<Seq<char>, ServiceView>) -> bool {
    forall|service_id: Seq<char>| #[trigger]
        cache.contains_key(service_id) ==> cache[service_id].cursor
            < cache[service_id].instances.len()
}

/// The lookup of `service_id` at time `now` in the lists `cache`: the next
/// instance of a list that is there and not older than the lifetime of a
/// lease, or nothing where the instances have to be fetched.
pub open spec fn cached_instance(
    cache: Map<Seq<char>, ServiceView>,
    service_id: Seq<char>,
    now: u64,
) -> Option<InstanceInfoView> {
    if cache.contains_key(service_id) && !expired_at(cache[service_id].fetched_at, now) {
        Some(cache[service_id].instances[cache[service_id].cursor as int])
    } else {
        None
    }
}

/// The lists `cache` after the lookup of `service_id` at time `now`: a list
/// that served the lookup has handed out one instance.
pub open spec fn after_lookup(
    cache: Map<Seq<char>, ServiceView>,
    service_id: Seq<char>,
    now: u64,
) -> Map<Seq<char>, ServiceView> {
    if cache.contains_key(service_id) && !expired_at(cache[service_id].fetched_at, now) {
        cache.insert(service_id, advanced(cache[service_id]))
    } else {
        cache
    }
}

impl WatchtowerClient {
    /// Every list that the client keeps has an instance to hand out.
    #[verifier::type_invariant]
    closed spec fn inv(&self) -> bool {
        all_usable(self.services@)
    }

    /// The registration that the client holds.
    pub closed spec fn registration(&self) -> Option<Registration> {
        registration_view(self.instance_info)
    }

    /// The lists of instances that the client has fetched, by service.
    pub closed spec fn cache(&self) -> Map<Seq<char>, ServiceView> {
        service_views(self.services@)
    }

    /// The registries of the client.
    pub closed spec fn registries(&self) -> HttpClient {
        self.http_client
    }

    /// A client of the registries at `watchtower_urls`, without a
    /// registration and without lists of instances.
    pub fn new(watchtower_urls: Vec<String>, username: &str, password: &str) -> (r: WatchtowerClient)
        ensures
            r.registration() is None,
            r.cache() == Map::<Seq<char>, ServiceView>::empty(),
            lists_usable(r.cache()),
            r.registries()@.urls == string_views(watchtower_urls@),
            r.registries()@.username == username@,
            r.registries()@.password == password@,
    {
        let r = WatchtowerClient {
            http_client: HttpClient::new(watchtower_urls, username.to_owned(), password.to_owned()),
            services: StringMap::new(),
            instance_info: None,
        };
        assert(r.cache() =~= Map::<Seq<char>, ServiceView>::empty());
        r
    }

    /// The registries of the client, to build the requests of a call.
    pub fn http_client(&self) -> (r: &HttpClient)
        ensures
            *r == self.registries(),
    {
        &self.http_client
    }

    /// Takes up the registration of an instance with the identifier
    /// `instance_id` at `ip_addr` and `port` for `service_id`, and returns
    /// what is to be registered with a registry. A client that holds a
    /// registration takes up no other. The registration ends with
    /// `register_failed` where no registry accepts it.
    pub fn register_as(
        &mut self,
        service_id: &str,
        ip_addr: &str,
        port: u16,
        instance_id: String,
    ) -> (r: Result<(String, InstanceInfo), WatchtowerError>)
        ensures
            final(self).cache() == old(self).cache(),
            final(self).registries() == old(self).registries(),
            final(self).registration() == after_register(
                old(self).registration(),
                (service_id@, InstanceInfoView { instance_id: instance_id@, ip_addr: ip_addr@, port }),
            ),
            match r {
                Ok((service, info)) => {
                    &&& register_outcome(old(self).registration()) is Ok
                    &&& service@ == service_id@
                    &&& info@ == (InstanceInfoView {
                        instance_id: instance_id@,
                        ip_addr: ip_addr@,
                        port,
                    })
                },
                Err(e) => register_outcome(old(self).registration()) == Err::<(), WatchtowerError>(e),
            },
    {
        proof {
            use_type_invariant(&*self);
        }
        if self.instance_info.is_some() {
            return Err(WatchtowerError::InstanceAlreadyRegistered);
        }
        let info = InstanceInfo { instance_id, ip_addr: ip_addr.to_owned(), port };
        self.instance_info = Some((service_id.to_owned(), info.clone()));
        Ok((service_id.to_owned(), info))
    }

    /// Takes up the registration of this process at `ip_addr` and `port`
    /// for `service_id` under a fresh random identifier, and returns what
    /// is to be registered with a registry. A client that holds a
    /// registration takes up no other. The registration is held from here
    /// on, so that no other is taken up while the registries are asked. It
    /// ends with `register_failed` where no registry accepts it, and with
    /// `complete_cancel` once it was accepted and then cancelled.
    pub fn register(&mut self, service_id: &str, ip_addr: &str, port: u16) -> (r: Result<
        (String, InstanceInfo),
        WatchtowerError,
    >)
        ensures
            final(self).cache() == old(self).cache(),
            final(self).registries() == old(self).registries(),
            match r {
                Ok((service, info)) => {
                    &&& register_outcome(old(self).registration()) is Ok
                    &&& service@ == service_id@
                    &&& info@.ip_addr == ip_addr@
                    &&& info@.port == port
                    &&& final(self).registration() == after_register(
                        old(self).registration(),
                        (service@, info@),
                    )
                },
                Err(e) => {
                    &&& register_outcome(old(self).registration()) == Err::<(), WatchtowerError>(e)
                    &&& final(self).registration() == old(self).registration()
                },
            },
    {
        proof {
            use_type_invariant(&*self);
        }
        if self.instance_info.is_some() {
            return Err(WatchtowerError::InstanceAlreadyRegistered);
        }
        self.register_as(service_id, ip_addr, port, new_instance_id())
    }

    /// Gives up the registration of `registered`, which no registry has
    /// accepted: the client then holds no registration, and the next wish
    /// to register is taken up. A registration of another instance, taken
    /// up since, stays.
    pub fn register_failed(&mut self, registered: &InstanceInfo)
        ensures
            final(self).registration() == after_refusal(
                old(self).registration(),
                registered@.instance_id,
            ),
            holds_instance(old(self).registration(), registered@.instance_id)
                ==> final(self).registration() is None,
            final(self).cache() == old(self).cache(),
            final(self).registries() == old(self).registries(),
    {
        proof {
            use_type_invariant(&*self);
        }
        if self.heartbeat_continues(registered) {
            self.instance_info = None;
        }
    }

    /// Whether the heartbeat of the registration of `registered` goes on:
    /// it does while the client holds the registration of that instance,
    /// and ends when the registration was cancelled or another instance
    /// was registered.
    pub fn heartbeat_continues(&self, registered: &InstanceInfo) -> (r: bool)
        ensures
            r == holds_instance(self.registration(), registered@.instance_id),
    {
        match &self.instance_info {
            Some((_, info)) => crate::text::str_eq(
                info.instance_id.as_str(),
                registered.instance_id.as_str(),
            ),
            None => false,
        }
    }

    /// The registration to cancel with a registry. A client without a
    /// registration has none.
    pub fn cancel(&self) -> (r: Result<(String, InstanceInfo), WatchtowerError>)
        ensures
            match r {
                Ok((service, info)) => self.registration() == Some((service@, info@)),
                Err(e) => e == WatchtowerError::NotFound && self.registration() is None,
            },
    {
        match &self.instance_info {
            Some((service_id, info)) => Ok((service_id.clone(), info.clone())),
            None => Err(WatchtowerError::NotFound),
        }
    }

    /// Gives up the registration, once a registry has cancelled it.
    pub fn complete_cancel(&mut self)
        ensures
            final(self).registration() is None,
            final(self).cache() == old(self).cache(),
            final(self).registries() == old(self).registries(),
    {
        proof {
            use_type_invariant(&*self);
        }
        self.instance_info = None;
    }

    /// Looks `service_id` up at time `now`. Where the client has a list of
    /// its instances that is not older than the lifetime of a lease, the
    /// next instance of the list is handed out, as host, colon and port.
    /// Otherwise nothing is: the instances are to be fetched.
    pub fn get_service_url_at(&mut self, service_id: &str, now: u64) -> (r: Option<String>)
        ensures
            final(self).registration() == old(self).registration(),
            final(self).registries() == old(self).registries(),
            final(self).cache() == after_lookup(old(self).cache(), service_id@, now),
            lists_usable(old(self).cache()),
            lists_usable(final(self).cache()),
            match r {
                Some(url) => {
                    &&& old(self).cache().contains_key(service_id@)
                    &&& old(self).cache()[service_id@].cursor
                        < old(self).cache()[service_id@].instances.len()
                    &&& cached_instance(old(self).cache(), service_id@, now) matches Some(info)
                        && url@ == address_of(info)
                },
                None => cached_instance(old(self).cache(), service_id@, now) is None,
            },
    {
        proof {
            use_type_invariant(&*self);
            assert(lists_usable(self.cache()));
        }
        let fresh = match self.services.get(service_id) {
            Some(service) => !service.is_expired_at(now),
            None => false,
        };
        if !fresh {
            return None;
        }
        let ghost before = self.services@;
        let mut services: StringMap<Service> = StringMap::new();
        core::mem::swap(&mut self.services, &mut services);
        let mut found: Option<InstanceInfo> = None;
        match services.remove(service_id) {
            Some(mut service) => {
                let ghost listed = service@;
                match service.get_next_instance() {
                    Ok(info) => {
                        found = Some(info);
                    },
                    Err(_) => {},
                }
                proof {
                    use_type_invariant(&service);
                    service.lemma_cursor();
                }
                services.insert(service_id.to_owned(), service);
                proof {
                    assert(all_usable(services@));
                    assert(service_views(services@) =~= service_views(before).insert(
                        service_id@,
                        advanced(listed),
                    ));
                }
            },
            None => {},
        }
        self.services = services;
        match found {
            Some(info) => Some(instance_address(&info)),
            None => None,
        }
    }

    /// Looks `service_id` up by the system clock. Where the client has a
    /// list of its instances that is not older than the lifetime of a
    /// lease, the next instance of the list is handed out, as host, colon
    /// and port. Otherwise nothing is: the instances are to be fetched. The
    /// clock is read only where the client has a list; when it stands
    /// before the epoch the lookup fails.
    pub fn get_service_url(&mut self, service_id: &str) -> (r: Result<Option<String>, WatchtowerError>)
        ensures
            final(self).registration() == old(self).registration(),
            final(self).registries() == old(self).registries(),
            lists_usable(final(self).cache()),
            match r {
                Ok(found) => exists|now: u64|
                    {
                        &&& final(self).cache() == #[trigger] after_lookup(
                            old(self).cache(),
                            service_id@,
                            now,
                        )
                        &&& match found {
                            Some(url) => {
                                &&& old(self).cache().contains_key(service_id@)
                                &&& old(self).cache()[service_id@].cursor
                                    < old(self).cache()[service_id@].instances.len()
                                &&& cached_instance(old(self).cache(), service_id@, now) matches Some(
                                    info,
                                ) && url@ == address_of(info)
                            },
                            None => cached_instance(old(self).cache(), service_id@, now) is None,
                        }
                    },
                Err(e) => {
                    &&& e == WatchtowerError::InternalError
                    &&& old(self).cache().contains_key(service_id@)
                    &&& final(self).cache() == old(self).cache()
                },
            },
    {
        proof {
            use_type_invariant(&*self);
        }
        if !self.services.contains_key(service_id) {
            assert(self.cache() == after_lookup(self.cache(), service_id@, 0));
            return Ok(None);
        }
        match unix_time() {
            Ok(now) => {
                let found = self.get_service_url_at(service_id, now);
                let r = Ok(found);
                assert(self.cache() == after_lookup(old(self).cache(), service_id@, now));
                r
            },
            Err(e) => Err(WatchtowerError::from(e)),
        }
    }

    /// Keeps `instance_infos` as the instances of `service_id`, fetched at
    /// time `now`, and hands out the first. An empty list is not kept: the
    /// service has no instance to be found.
    pub fn refetch_service_at(
        &mut self,
        service_id: &str,
        instance_infos: Vec<InstanceInfo>,
        now: u64,
    ) -> (r: Result<InstanceInfo, WatchtowerError>)
        ensures
            final(self).registration() == old(self).registration(),
            final(self).registries() == old(self).registries(),
            lists_usable(final(self).cache()),
            match r {
                Ok(info) => {
                    &&& instance_infos.len() > 0
                    &&& info@ == instance_infos[0]@
                    &&& final(self).cache() == old(self).cache().insert(
                        service_id@,
                        advanced(fetched(instance_views(instance_infos@), now)),
                    )
                },
                Err(e) => {
                    &&& e == WatchtowerError::NotFound
                    &&& instance_infos.len() == 0
                    &&& final(self).cache() == old(self).cache()
                },
            },
    {
        proof {
            use_type_invariant(&*self);
        }
        let mut service = Service::new_at(instance_infos, now);
        let info = match service.get_next_instance() {
            Ok(info) => info,
            Err(e) => {
                return Err(e);
            },
        };
        proof {
            use_type_invariant(&service);
            service.lemma_cursor();
        }
        let ghost before = self.services@;
        let ghost kept = service@;
        let mut services: StringMap<Service> = StringMap::new();
        core::mem::swap(&mut self.services, &mut services);
        services.insert(service_id.to_owned(), service);
        proof {
            assert(all_usable(services@));
            assert(service_views(services@) =~= service_views(before).insert(service_id@, kept));
        }
        self.services = services;
        Ok(info)
    }

    /// Keeps `instance_infos` as the instances of `service_id`, fetched at
    /// the time that the system clock shows, and hands out the first. An
    /// empty list is not kept: the service has no instance to be found.
    /// The clock is read only for a list that is not empty; when it stands
    /// before the epoch nothing is kept.
    pub fn refetch_service(&mut self, service_id: &str, instance_infos: Vec<InstanceInfo>) -> (r: Result<
        InstanceInfo,
        WatchtowerError,
    >)
        ensures
            final(self).registration() == old(self).registration(),
            final(self).registries() == old(self).registries(),
            lists_usable(final(self).cache()),
            match r {
                Ok(info) => {
                    &&& instance_infos.len() > 0
                    &&& info@ == instance_infos[0]@
                    &&& exists|now: u64|
                        final(self).cache() == old(self).cache().insert(
                            service_id@,
                            advanced(#[trigger] fetched(instance_views(instance_infos@), now)),
                        )
                },
                Err(e) => {
                    &&& final(self).cache() == old(self).cache()
                    &&& if instance_infos.len() == 0 {
                        e == WatchtowerError::NotFound
                    } else {
                        e == WatchtowerError::InternalError
                    }
                },
            },
    {
        proof {
            use_type_invariant(&*self);
            assert(lists_usable(self.cache()));
        }
        if instance_infos.len() == 0 {
            return Err(WatchtowerError::NotFound);
        }
        match unix_time() {
            Ok(now) => self.refetch_service_at(service_id, instance_infos, now),
            Err(e) => Err(WatchtowerError::from(e)),
        }
    }
}

} // verus!
