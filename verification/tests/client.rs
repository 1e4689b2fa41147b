use watchtower::client::error::WatchtowerError;
use watchtower::client::http_client::{conclude, judge, Call, HttpClient, Progress, Verdict};
use watchtower::client::load_balancer::Service;
use watchtower::client::{instance_address, WatchtowerClient, HEARTBEAT_INTERVAL_SEC};
use watchtower::http::{Header, Method, Reply, Request};
use watchtower::instance::InstanceInfo;

fn instance(id: &str, ip: &str, port: u16) -> InstanceInfo {
    InstanceInfo { instance_id: id.to_string(), ip_addr: ip.to_string(), port }
}

fn urls() -> Vec<String> {
    vec!["http://localhost:8088".to_string(), "http://localhost:8089".to_string()]
}

fn http_client() -> HttpClient {
    HttpClient::new(urls(), "admin".to_string(), "password".to_string())
}

fn bare(method: Method, url: &str) -> Request {
    Request {
        method,
        url: url.to_string(),
        username: "admin".to_string(),
        password: "password".to_string(),
        headers: vec![],
        body: None,
    }
}

#[test]
fn heartbeat_interval_is_half_the_lifetime_of_a_lease() {
    assert_eq!(HEARTBEAT_INTERVAL_SEC, 15);
    assert_eq!(HEARTBEAT_INTERVAL_SEC * 2, watchtower::clock::LEASE_TTL_SECONDS);
}

#[test]
fn addresses_are_written_as_host_and_port() {
    assert_eq!(instance_address(&instance("a", "127.0.0.1", 1234)), "127.0.0.1:1234");
    assert_eq!(instance_address(&instance("a", "example.org", 0)), "example.org:0");
    assert_eq!(instance_address(&instance("a", "::1", 65535)), "::1:65535");
    assert_eq!(instance_address(&instance("a", "", 80)), ":80");
}

#[test]
fn requests_of_the_client() {
    let client = http_client();
    assert_eq!(client.len(), 2);
    let info = instance("abc", "127.0.0.1", 1234);
    assert_eq!(
        client.register(0, "foo", &info),
        Ok(Request {
            method: Method::Post,
            url: "http://localhost:8088/api/v1/services/foo".to_string(),
            username: "admin".to_string(),
            password: "password".to_string(),
            headers: vec![Header {
                name: "content-type".to_string(),
                value: "application/json".to_string(),
            }],
            body: Some(info.clone()),
        })
    );
    assert_eq!(
        client.renew(1, "foo", &info),
        Ok(bare(Method::Put, "http://localhost:8089/api/v1/services/foo/abc"))
    );
    assert_eq!(
        client.cancel(0, "foo", &info),
        Ok(bare(Method::Delete, "http://localhost:8088/api/v1/services/foo/abc"))
    );
    assert_eq!(
        client.get_all_instances(1, "foo"),
        Ok(bare(Method::Get, "http://localhost:8089/api/v1/services/foo"))
    );
}

#[test]
fn no_request_is_left_after_the_last_registry() {
    let client = http_client();
    let info = instance("abc", "127.0.0.1", 1234);
    assert_eq!(client.register(2, "foo", &info), Err(WatchtowerError::MaxRetryReached));
    assert_eq!(client.renew(2, "foo", &info), Err(WatchtowerError::MaxRetryReached));
    assert_eq!(client.cancel(3, "foo", &info), Err(WatchtowerError::MaxRetryReached));
    assert_eq!(client.get_all_instances(usize::MAX, "foo"), Err(WatchtowerError::MaxRetryReached));
    let none = HttpClient::new(vec![], "admin".to_string(), "password".to_string());
    assert_eq!(none.get_all_instances(0, "foo"), Err(WatchtowerError::MaxRetryReached));
}

#[test]
fn verdicts_on_answers() {
    for call in [Call::Register, Call::Renew, Call::Cancel, Call::GetAllInstances] {
        assert_eq!(judge(call, Reply::Status(200)), Verdict::Success);
        assert_eq!(judge(call, Reply::Status(204)), Verdict::Success);
        assert_eq!(judge(call, Reply::Status(299)), Verdict::Success);
        assert_eq!(judge(call, Reply::Status(401)), Verdict::Failure(WatchtowerError::Unauthorized));
        assert_eq!(judge(call, Reply::Status(500)), Verdict::TryNext);
        assert_eq!(judge(call, Reply::Status(503)), Verdict::TryNext);
        assert_eq!(judge(call, Reply::Status(599)), Verdict::TryNext);
        assert_eq!(judge(call, Reply::TransportError), Verdict::TryNext);
        assert_eq!(judge(call, Reply::Status(400)), Verdict::Failure(WatchtowerError::InternalError));
        assert_eq!(judge(call, Reply::Status(199)), Verdict::Failure(WatchtowerError::InternalError));
        assert_eq!(judge(call, Reply::Status(300)), Verdict::Failure(WatchtowerError::InternalError));
        assert_eq!(judge(call, Reply::Status(600)), Verdict::Failure(WatchtowerError::InternalError));
    }
    assert_eq!(
        judge(Call::GetAllInstances, Reply::Status(404)),
        Verdict::Failure(WatchtowerError::NotFound)
    );
    assert_eq!(
        judge(Call::Renew, Reply::Status(404)),
        Verdict::Failure(WatchtowerError::InternalError)
    );
}

#[test]
fn failover_reaches_the_second_registry() {
    assert_eq!(conclude(Call::Register, &[Reply::TransportError, Reply::Status(204)]), Ok(()));
    assert_eq!(conclude(Call::GetAllInstances, &[Reply::Status(502), Reply::Status(200)]), Ok(()));
    assert_eq!(conclude(Call::Register, &[Reply::Status(204), Reply::TransportError]), Ok(()));
}

#[test]
fn failover_ends_when_every_registry_failed() {
    assert_eq!(conclude(Call::Register, &[]), Err(WatchtowerError::MaxRetryReached));
    assert_eq!(
        conclude(Call::Register, &[Reply::TransportError, Reply::Status(500)]),
        Err(WatchtowerError::MaxRetryReached)
    );
}

#[test]
fn failover_stops_at_the_first_answer_that_decides() {
    assert_eq!(
        conclude(Call::Register, &[Reply::Status(401), Reply::Status(204)]),
        Err(WatchtowerError::Unauthorized)
    );
    assert_eq!(
        conclude(Call::GetAllInstances, &[Reply::TransportError, Reply::Status(404), Reply::Status(200)]),
        Err(WatchtowerError::NotFound)
    );
    assert_eq!(
        conclude(Call::Cancel, &[Reply::Status(418), Reply::Status(200)]),
        Err(WatchtowerError::InternalError)
    );
}

#[test]
fn round_robin_over_a_cached_list() {
    let list = vec![instance("a", "10.0.0.1", 1), instance("b", "10.0.0.2", 2), instance("c", "10.0.0.3", 3)];
    let mut service = Service::new_at(list.clone(), 100);
    assert_eq!(service.len(), 3);
    let mut seen = vec![];
    for _ in 0..7 {
        seen.push(service.get_next_instance().unwrap().instance_id);
    }
    assert_eq!(seen, vec!["a", "b", "c", "a", "b", "c", "a"]);
}

#[test]
fn round_robin_is_fair() {
    for m in 1..6usize {
        for n in 0..20usize {
            let list: Vec<InstanceInfo> =
                (0..m).map(|i| instance(&format!("{}", i), "10.0.0.1", i as u16)).collect();
            let mut service = Service::new_at(list, 0);
            let mut counts = vec![0usize; m];
            for _ in 0..n {
                let next = service.get_next_instance().unwrap();
                counts[next.port as usize] += 1;
            }
            for count in counts {
                assert!(count == n / m || count == (n + m - 1) / m);
            }
        }
    }
}

#[test]
fn an_empty_list_has_nothing_to_hand_out() {
    let mut service = Service::new_at(vec![], 100);
    assert_eq!(service.get_next_instance(), Err(WatchtowerError::NotFound));
    assert_eq!(service.get_next_instance(), Err(WatchtowerError::NotFound));
    assert_eq!(service.len(), 0);
}

#[test]
fn a_cached_list_expires_after_thirty_seconds() {
    let service = Service::new_at(vec![instance("a", "10.0.0.1", 1)], 100);
    assert!(!service.is_expired_at(100));
    assert!(!service.is_expired_at(130));
    assert!(service.is_expired_at(131));
    assert!(!service.is_expired_at(0));
    let fresh = Service::new(vec![instance("a", "10.0.0.1", 1)]).unwrap();
    assert_eq!(fresh.is_expired(), Ok(false));
    assert_eq!(service.is_expired(), Ok(true));
}

#[test]
fn register_twice_without_cancel_fails() {
    let mut client = WatchtowerClient::new(urls(), "admin", "password");
    let (service, info) = client.register("foo", "127.0.0.1", 1234).unwrap();
    assert_eq!(service, "foo");
    assert_eq!(info.ip_addr, "127.0.0.1");
    assert_eq!(info.port, 1234);
    assert_eq!(
        client.register("foo", "127.0.0.1", 1234),
        Err(WatchtowerError::InstanceAlreadyRegistered)
    );
    assert_eq!(
        client.register("bar", "127.0.0.2", 80),
        Err(WatchtowerError::InstanceAlreadyRegistered)
    );
    assert_eq!(
        client.register_as("bar", "127.0.0.2", 80, "chosen".to_string()),
        Err(WatchtowerError::InstanceAlreadyRegistered)
    );
    assert_eq!(client.cancel(), Ok((service, info)));
}

#[test]
fn register_after_cancel_succeeds() {
    let mut client = WatchtowerClient::new(urls(), "admin", "password");
    assert_eq!(client.cancel(), Err(WatchtowerError::NotFound));
    let first = client.register("foo", "127.0.0.1", 1234).unwrap();
    assert_eq!(client.cancel(), Ok(first.clone()));
    assert_eq!(client.cancel(), Ok(first.clone()));
    client.complete_cancel();
    assert_eq!(client.cancel(), Err(WatchtowerError::NotFound));
    let second = client.register_as("bar", "127.0.0.2", 80, "chosen".to_string()).unwrap();
    assert_eq!(second, ("bar".to_string(), instance("chosen", "127.0.0.2", 80)));
    assert_eq!(client.cancel(), Ok(second));
}

#[test]
fn fresh_instance_identifiers_differ() {
    let mut one = WatchtowerClient::new(urls(), "admin", "password");
    let mut two = WatchtowerClient::new(urls(), "admin", "password");
    let (_, first) = one.register("foo", "127.0.0.1", 1234).unwrap();
    let (_, second) = two.register("foo", "127.0.0.1", 1234).unwrap();
    assert_ne!(first.instance_id, second.instance_id);
    assert_eq!(first.instance_id.len(), 36);
    assert_eq!(first.instance_id.matches('-').count(), 4);
}

#[test]
fn the_heartbeat_stops_when_the_registration_is_gone() {
    let mut client = WatchtowerClient::new(urls(), "admin", "password");
    let (_, info) = client.register("foo", "127.0.0.1", 1234).unwrap();
    assert!(client.heartbeat_continues(&info));
    assert!(!client.heartbeat_continues(&instance("other", "127.0.0.1", 1234)));
    client.complete_cancel();
    assert!(!client.heartbeat_continues(&info));
    let (_, again) = client.register("foo", "127.0.0.1", 1234).unwrap();
    assert!(!client.heartbeat_continues(&info));
    assert!(client.heartbeat_continues(&again));
}

#[test]
fn lookup_misses_until_the_list_is_fetched() {
    let mut client = WatchtowerClient::new(urls(), "admin", "password");
    assert_eq!(client.get_service_url_at("foo", 100), None);
    assert_eq!(client.get_service_url("foo"), Ok(None));
    let list = vec![instance("a", "10.0.0.1", 1), instance("b", "10.0.0.2", 2)];
    assert_eq!(client.refetch_service_at("foo", list.clone(), 100), Ok(list[0].clone()));
    assert_eq!(client.get_service_url_at("foo", 100), Some("10.0.0.2:2".to_string()));
    assert_eq!(client.get_service_url_at("foo", 110), Some("10.0.0.1:1".to_string()));
    assert_eq!(client.get_service_url_at("foo", 130), Some("10.0.0.2:2".to_string()));
    assert_eq!(client.get_service_url_at("bar", 130), None);
    assert_eq!(client.get_service_url_at("foo", 131), None);
    assert_eq!(client.get_service_url_at("foo", 130), Some("10.0.0.1:1".to_string()));
}

#[test]
fn a_refetch_resets_the_rotation() {
    let mut client = WatchtowerClient::new(urls(), "admin", "password");
    let list = vec![instance("a", "10.0.0.1", 1), instance("b", "10.0.0.2", 2), instance("c", "10.0.0.3", 3)];
    client.refetch_service_at("foo", list.clone(), 100).unwrap();
    assert_eq!(client.get_service_url_at("foo", 101), Some("10.0.0.2:2".to_string()));
    let shorter = vec![instance("c", "10.0.0.3", 3)];
    assert_eq!(client.refetch_service_at("foo", shorter.clone(), 140), Ok(shorter[0].clone()));
    assert_eq!(client.get_service_url_at("foo", 141), Some("10.0.0.3:3".to_string()));
    assert_eq!(client.get_service_url_at("foo", 170), Some("10.0.0.3:3".to_string()));
    assert_eq!(client.get_service_url_at("foo", 171), None);
}

#[test]
fn an_empty_list_is_not_found_and_not_kept() {
    let mut client = WatchtowerClient::new(urls(), "admin", "password");
    assert_eq!(client.refetch_service_at("foo", vec![], 100), Err(WatchtowerError::NotFound));
    assert_eq!(client.refetch_service("foo", vec![]), Err(WatchtowerError::NotFound));
    assert_eq!(client.get_service_url_at("foo", 100), None);
    let list = vec![instance("a", "10.0.0.1", 1)];
    client.refetch_service_at("foo", list, 100).unwrap();
    assert_eq!(client.refetch_service_at("foo", vec![], 105), Err(WatchtowerError::NotFound));
    assert_eq!(client.get_service_url_at("foo", 106), Some("10.0.0.1:1".to_string()));
}

#[test]
fn lookup_by_the_system_clock() {
    let mut client = WatchtowerClient::new(urls(), "admin", "password");
    let list = vec![instance("a", "10.0.0.1", 1), instance("b", "10.0.0.2", 2)];
    assert_eq!(client.refetch_service("foo", list.clone()), Ok(list[0].clone()));
    assert_eq!(client.get_service_url("foo"), Ok(Some("10.0.0.2:2".to_string())));
    assert_eq!(client.get_service_url("foo"), Ok(Some("10.0.0.1:1".to_string())));
    client.refetch_service_at("old", list, 1).unwrap();
    assert_eq!(client.get_service_url("old"), Ok(None));
    assert_eq!(client.http_client().len(), 2);
}

#[test]
fn a_refused_registration_is_not_held() {
    let mut client = WatchtowerClient::new(urls(), "admin", "whatever");
    let (_, first) = client.register("bar", "127.0.0.1", 1234).unwrap();
    client.register_failed(&first);
    assert_eq!(client.cancel(), Err(WatchtowerError::NotFound));
    assert!(!client.heartbeat_continues(&first));
    let (service, second) = client.register("bar", "127.0.0.1", 1234).unwrap();
    assert_eq!(service, "bar");
    assert_ne!(first.instance_id, second.instance_id);
    assert_eq!(client.cancel(), Ok((service, second)));
}

#[test]
fn a_refusal_leaves_a_later_registration_alone() {
    let mut client = WatchtowerClient::new(urls(), "admin", "password");
    let (_, first) = client.register_as("foo", "127.0.0.1", 1, "one".to_string()).unwrap();
    client.complete_cancel();
    let second = client.register_as("foo", "127.0.0.1", 2, "two".to_string()).unwrap();
    client.register_failed(&first);
    assert_eq!(client.cancel(), Ok(second.clone()));
    client.register_failed(&second.1);
    assert_eq!(client.cancel(), Err(WatchtowerError::NotFound));
    client.register_failed(&second.1);
    assert_eq!(client.cancel(), Err(WatchtowerError::NotFound));
}

#[test]
fn progress_of_a_call() {
    let client = http_client();
    assert_eq!(client.progress(Call::Register, &[]), Progress::Ask(0));
    assert_eq!(client.progress(Call::Register, &[Reply::TransportError]), Progress::Ask(1));
    assert_eq!(client.progress(Call::Register, &[Reply::Status(503)]), Progress::Ask(1));
    assert_eq!(client.progress(Call::Register, &[Reply::Status(204)]), Progress::Done(Ok(())));
    assert_eq!(
        client.progress(Call::Register, &[Reply::TransportError, Reply::Status(204)]),
        Progress::Done(Ok(()))
    );
    assert_eq!(
        client.progress(Call::Register, &[Reply::Status(401)]),
        Progress::Done(Err(WatchtowerError::Unauthorized))
    );
    assert_eq!(
        client.progress(Call::GetAllInstances, &[Reply::Status(500), Reply::Status(404)]),
        Progress::Done(Err(WatchtowerError::NotFound))
    );
    assert_eq!(
        client.progress(Call::Renew, &[Reply::TransportError, Reply::Status(500)]),
        Progress::Done(Err(WatchtowerError::MaxRetryReached))
    );
    let none = HttpClient::new(vec![], "admin".to_string(), "password".to_string());
    assert_eq!(
        none.progress(Call::Cancel, &[]),
        Progress::Done(Err(WatchtowerError::MaxRetryReached))
    );
}
