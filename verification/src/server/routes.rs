//! What the HTTP surface of a node answers.
//!
//! Each handler takes a request that has passed the check of its
//! credentials, applies it to the registry, and says with which status and
//! body to answer. A request that a peer passed on changes the registry
//! like any other and queues nothing for replication.

use vstd::prelude::*;
use crate::http::{NOT_FOUND, NO_CONTENT, OK};
use crate::instance::{instance_views, InstanceInfo};
use crate::server::auth::AuthorizedReq;
use crate::server::dispatcher::DispatchView;
use crate::server::error::WatchtowerError;
use crate::server::registry::{
    cancelled, lease_of, lists_instances, queued, registered, renewed,
    with_service, RegistryView, ServiceRegistry,
};

verus! {

/// The answer to a request: its status, and the instances that its body
/// lists as a JSON array, where it has a body.
#[derive(Debug, PartialEq, Eq)]
pub struct Response {
    pub status: u16,
    pub body: Option<Vec<InstanceInfo>>,
}

impl Response {
    /// An answer with `status` and without a body.
    pub fn empty(status: u16) -> (r: Response)
        ensures
            r.status == status,
            r.body is None,
    {
        Response { status, body: None }
    }
}

/// Answers a request for the instances of `service_id`: with the list of
/// those that hold a lease, or with "not found" for a service that is not
/// known.
pub fn get_all_instances(
    _req: &AuthorizedReq,
    service_id: &str,
    registry: &ServiceRegistry,
) -> (r: Response)
    ensures
        match r.body {
            Some(instances) => {
                &&& r.status == OK
                &&& registry@.contains_key(service_id@)
                &&& lists_instances(instance_views(instances@), registry@[service_id@])
            },
            None => r.status == NOT_FOUND && !registry@.contains_key(service_id@),
        },
{
    match registry.get_all_instances(service_id) {
        Some(instances) => Response { status: OK, body: Some(instances) },
        None => Response::empty(NOT_FOUND),
    }
}

/// Answers a registration of `instance_info` for `service_id` with "no
/// content" once the registry holds the lease.
pub fn register_instance(
    req: &AuthorizedReq,
    instance_info: InstanceInfo,
    service_id: &str,
    registry: &mut ServiceRegistry,
) -> (r: Result<Response, WatchtowerError>)
    ensures
        req.is_replicated ==> final(registry).pending() == old(registry).pending(),
        match r {
            Ok(response) => {
                &&& response.status == NO_CONTENT
                &&& response.body is None
                &&& exists|now: u64|
                    {
                        &&& final(registry)@ == #[trigger] registered(
                            old(registry)@,
                            service_id@,
                            instance_info@,
                            now,
                        )
                        &&& final(registry).pending() == queued(
                            old(registry).pending(),
                            req.is_replicated,
                            DispatchView::Register(service_id@, instance_info@),
                        )
                    }
            },
            Err(e) => {
                &&& e == WatchtowerError::InternalError
                &&& final(registry)@ == with_service(old(registry)@, service_id@)
                &&& final(registry).pending() == old(registry).pending()
            },
        },
{
    match registry.register_instance(service_id, instance_info, req.is_replicated) {
        Ok(()) => Ok(Response::empty(NO_CONTENT)),
        Err(e) => Err(e),
    }
}

/// The status that answers a renewal or a cancellation for an instance:
/// "ok" where the instance holds a lease, and "not found" where it holds
/// none.
pub open spec fn lease_status(v: RegistryView, service_id: Seq<char>, instance_id: Seq<char>) -> u16 {
    if lease_of(v, service_id, instance_id) is Some {
        OK
    } else {
        NOT_FOUND
    }
}

/// Answers a renewal with "ok" where the instance holds a lease, which is
/// then renewed, and with "not found" where it holds none.
pub fn renew_lease(
    req: &AuthorizedReq,
    service_id: &str,
    instance_id: &str,
    registry: &mut ServiceRegistry,
) -> (r: Result<Response, WatchtowerError>)
    ensures
        req.is_replicated ==> final(registry).pending() == old(registry).pending(),
        match r {
            Ok(response) => {
                &&& response.body is None
                &&& response.status == lease_status(old(registry)@, service_id@, instance_id@)
                &&& exists|now: u64|
                    final(registry)@ == #[trigger] renewed(
                        old(registry)@,
                        service_id@,
                        instance_id@,
                        now,
                    )
                &&& final(registry).pending() == if lease_of(
                    old(registry)@,
                    service_id@,
                    instance_id@,
                ) is Some {
                    queued(
                        old(registry).pending(),
                        req.is_replicated,
                        DispatchView::Renew(
                            service_id@,
                            old(registry)@[service_id@][instance_id@].instance_info,
                        ),
                    )
                } else {
                    old(registry).pending()
                }
            },
            Err(e) => {
                &&& e == WatchtowerError::InternalError
                &&& lease_of(old(registry)@, service_id@, instance_id@) is Some
                &&& final(registry)@ == old(registry)@
                &&& final(registry).pending() == old(registry).pending()
            },
        },
{
    match registry.renew_lease(service_id, instance_id, req.is_replicated) {
        Ok(found) => {
            if found {
                Ok(Response::empty(OK))
            } else {
                Ok(Response::empty(NOT_FOUND))
            }
        },
        Err(e) => Err(e),
    }
}

/// Answers a cancellation with "ok" where the instance held a lease, which
/// is then ended, and with "not found" where it held none.
pub fn cancel_lease(
    req: &AuthorizedReq,
    service_id: &str,
    instance_id: &str,
    registry: &mut ServiceRegistry,
) -> (r: Response)
    ensures
        req.is_replicated ==> final(registry).pending() == old(registry).pending(),
        r.body is None,
        r.status == lease_status(old(registry)@, service_id@, instance_id@),
        final(registry)@ == cancelled(old(registry)@, service_id@, instance_id@),
        final(registry).pending() == if lease_of(old(registry)@, service_id@, instance_id@) is Some {
            queued(
                old(registry).pending(),
                req.is_replicated,
                DispatchView::Cancel(service_id@, instance_id@),
            )
        } else {
            old(registry).pending()
        },
{
    match registry.cancel_lease(service_id, instance_id, req.is_replicated) {
        Some(_) => Response::empty(OK),
        None => Response::empty(NOT_FOUND),
    }
}

/// Answers a health check with "ok".
pub fn health_check(_req: &AuthorizedReq) -> (r: Response)
    ensures
        r.status == OK,
        r.body is None,
{
    Response::empty(OK)
}

} // verus!
