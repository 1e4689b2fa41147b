use watchtower::instance::InstanceInfo;
use watchtower::server::dispatcher::DispatcherMessage;
use watchtower::server::registry::{LeaseInfo, ServiceRegistry};

fn instance(id: &str, ip: &str, port: u16) -> InstanceInfo {
    InstanceInfo { instance_id: id.to_string(), ip_addr: ip.to_string(), port }
}

fn sorted_ids(mut instances: Vec<InstanceInfo>) -> Vec<String> {
    instances.sort_by(|a, b| a.instance_id.cmp(&b.instance_id));
    instances.into_iter().map(|i| i.instance_id).collect()
}

#[test]
fn register_then_get_all() {
    let mut registry = ServiceRegistry::new();
    registry.register_instance_at("foo", instance("a", "127.0.0.1", 1234), false, 100);
    let all = registry.get_all_instances("foo").unwrap();
    assert_eq!(all, vec![instance("a", "127.0.0.1", 1234)]);
    assert!(registry.get_all_instances("ghost").is_none());
}

#[test]
fn new_registry_knows_no_service() {
    let registry = ServiceRegistry::new();
    assert!(registry.get_all_instances("foo").is_none());
    assert!(registry.get_instance("foo", "a").is_none());
    assert!(registry.get_expired_instances_at(u64::MAX).is_empty());
    assert_eq!(registry.get_expired_instances(), Ok(vec![]));
}

#[test]
fn register_creates_the_lease_with_the_time_of_the_call() {
    let mut registry = ServiceRegistry::new();
    registry.register_instance_at("foo", instance("a", "10.0.0.1", 80), true, 77);
    let lease = registry.get_instance("foo", "a").unwrap();
    assert_eq!(lease.service_id, "foo");
    assert_eq!(lease.instance_info, instance("a", "10.0.0.1", 80));
    assert_eq!(lease.last_updated_timestamp(), 77);
    assert_eq!(lease, LeaseInfo::new("foo".to_string(), instance("a", "10.0.0.1", 80), 77));
}

#[test]
fn register_is_idempotent() {
    let mut registry = ServiceRegistry::new();
    registry.register_instance_at("foo", instance("a", "10.0.0.1", 80), true, 10);
    registry.register_instance_at("foo", instance("a", "10.0.0.9", 81), true, 20);
    registry.register_instance_at("foo", instance("a", "10.0.0.2", 8080), true, 30);
    let all = registry.get_all_instances("foo").unwrap();
    assert_eq!(all, vec![instance("a", "10.0.0.2", 8080)]);
    let lease = registry.get_instance("foo", "a").unwrap();
    assert_eq!(lease.last_updated_timestamp(), 30);

    let mut once = ServiceRegistry::new();
    once.register_instance_at("foo", instance("a", "10.0.0.2", 8080), true, 30);
    assert_eq!(once.get_instance("foo", "a"), registry.get_instance("foo", "a"));
}

#[test]
fn instances_of_two_services_are_kept_apart() {
    let mut registry = ServiceRegistry::new();
    registry.register_instance_at("foo", instance("a", "10.0.0.1", 80), true, 1);
    registry.register_instance_at("foo", instance("b", "10.0.0.2", 80), true, 2);
    registry.register_instance_at("bar", instance("a", "10.0.0.3", 80), true, 3);
    assert_eq!(sorted_ids(registry.get_all_instances("foo").unwrap()), vec!["a", "b"]);
    assert_eq!(registry.get_all_instances("bar").unwrap(), vec![instance("a", "10.0.0.3", 80)]);
    assert_eq!(registry.get_instance("bar", "a").unwrap().last_updated_timestamp(), 3);
    assert_eq!(registry.get_instance("foo", "a").unwrap().last_updated_timestamp(), 1);
    assert!(registry.get_instance("bar", "b").is_none());
}

#[test]
fn renew_updates_the_time_of_a_held_lease() {
    let mut registry = ServiceRegistry::new();
    registry.register_instance_at("foo", instance("a", "10.0.0.1", 80), true, 100);
    assert!(registry.renew_lease_at("foo", "a", true, 115));
    let lease = registry.get_instance("foo", "a").unwrap();
    assert_eq!(lease.last_updated_timestamp(), 115);
    assert_eq!(lease.instance_info, instance("a", "10.0.0.1", 80));
}

#[test]
fn renew_of_an_absent_lease_returns_false_and_changes_nothing() {
    let mut registry = ServiceRegistry::new();
    assert!(!registry.renew_lease_at("foo", "a", false, 115));
    assert!(registry.get_all_instances("foo").is_none());
    registry.register_instance_at("foo", instance("a", "10.0.0.1", 80), true, 100);
    assert!(!registry.renew_lease_at("foo", "b", false, 115));
    assert!(!registry.renew_lease_at("bar", "a", false, 115));
    assert_eq!(registry.renew_lease("foo", "b", false), Ok(false));
    assert_eq!(registry.get_instance("foo", "a").unwrap().last_updated_timestamp(), 100);
    assert!(registry.take_dispatches().is_empty());
}

#[test]
fn timestamps_do_not_decrease_while_the_clock_advances() {
    let mut registry = ServiceRegistry::new();
    let times = [5u64, 5, 9, 20, 20, 31, 100];
    let mut last = 0;
    for (step, now) in times.iter().enumerate() {
        if step % 2 == 0 {
            registry.register_instance_at("foo", instance("a", "10.0.0.1", 80), true, *now);
        } else {
            assert!(registry.renew_lease_at("foo", "a", true, *now));
        }
        let current = registry.get_instance("foo", "a").unwrap().last_updated_timestamp();
        assert!(current >= last);
        assert_eq!(current, *now);
        last = current;
    }
}

#[test]
fn cancel_returns_the_lease_and_keeps_the_service_known() {
    let mut registry = ServiceRegistry::new();
    registry.register_instance_at("foo", instance("a", "10.0.0.1", 80), true, 100);
    let removed = registry.cancel_lease("foo", "a", true).unwrap();
    assert_eq!(removed, LeaseInfo::new("foo".to_string(), instance("a", "10.0.0.1", 80), 100));
    assert_eq!(registry.get_all_instances("foo"), Some(vec![]));
    assert!(registry.get_instance("foo", "a").is_none());
    assert!(registry.cancel_lease("foo", "a", true).is_none());
    assert!(registry.cancel_lease("ghost", "a", true).is_none());
    assert!(registry.get_all_instances("ghost").is_none());
}

#[test]
fn client_writes_are_queued_for_replication() {
    let mut registry = ServiceRegistry::new();
    registry.register_instance_at("foo", instance("a", "10.0.0.1", 80), false, 100);
    assert!(registry.renew_lease_at("foo", "a", false, 110));
    assert!(registry.cancel_lease("foo", "a", false).is_some());
    assert!(registry.cancel_lease("foo", "a", false).is_none());
    let queued = registry.take_dispatches();
    assert_eq!(
        queued,
        vec![
            DispatcherMessage::Register("foo".to_string(), instance("a", "10.0.0.1", 80)),
            DispatcherMessage::Renew("foo".to_string(), instance("a", "10.0.0.1", 80)),
            DispatcherMessage::Cancel("foo".to_string(), "a".to_string()),
        ]
    );
    assert!(registry.take_dispatches().is_empty());
}

#[test]
fn replicated_writes_are_never_queued() {
    let mut registry = ServiceRegistry::new();
    registry.register_instance_at("foo", instance("a", "10.0.0.1", 80), true, 100);
    assert!(registry.renew_lease_at("foo", "a", true, 110));
    assert!(registry.cancel_lease("foo", "a", true).is_some());
    assert_eq!(registry.register_instance("foo", instance("b", "10.0.0.2", 80), true), Ok(()));
    assert_eq!(registry.renew_lease("foo", "b", true), Ok(true));
    assert!(registry.take_dispatches().is_empty());
}

#[test]
fn register_by_the_system_clock_stamps_the_lease_with_the_present() {
    let before = watchtower::clock::unix_time().unwrap();
    let mut registry = ServiceRegistry::new();
    assert_eq!(registry.register_instance("foo", instance("a", "10.0.0.1", 80), false), Ok(()));
    let after = watchtower::clock::unix_time().unwrap();
    let lease = registry.get_instance("foo", "a").unwrap();
    assert!(before <= lease.last_updated_timestamp());
    assert!(lease.last_updated_timestamp() <= after);
    assert!(before > 1_600_000_000);
    assert_eq!(lease.is_expired(), Ok(false));
    assert_eq!(registry.renew_lease("foo", "a", false), Ok(true));
    assert_eq!(registry.get_expired_instances(), Ok(vec![]));
    assert_eq!(registry.evict(), Ok(()));
    assert_eq!(registry.run(), Ok(()));
    assert!(registry.get_instance("foo", "a").is_some());
    assert_eq!(registry.take_dispatches().len(), 2);
}

#[test]
fn a_lease_expires_after_thirty_seconds() {
    let lease = LeaseInfo::new("foo".to_string(), instance("a", "10.0.0.1", 80), 100);
    assert!(!lease.is_expired_at(0));
    assert!(!lease.is_expired_at(100));
    assert!(!lease.is_expired_at(129));
    assert!(!lease.is_expired_at(130));
    assert!(lease.is_expired_at(131));
    assert!(lease.is_expired_at(u64::MAX));
    let old = LeaseInfo::new("foo".to_string(), instance("a", "10.0.0.1", 80), 0);
    assert!(old.is_expired_at(31));
    assert!(!old.is_expired_at(30));
    let late = LeaseInfo::new("foo".to_string(), instance("a", "10.0.0.1", 80), u64::MAX);
    assert!(!late.is_expired_at(u64::MAX));
    let lease_of_the_past = LeaseInfo::new("foo".to_string(), instance("a", "10.0.0.1", 80), 1);
    assert_eq!(lease_of_the_past.is_expired(), Ok(true));
}

#[test]
fn expired_leases_are_reported_once_their_lifetime_has_passed() {
    let mut registry = ServiceRegistry::new();
    registry.register_instance_at("foo", instance("a", "10.0.0.1", 80), true, 100);
    registry.register_instance_at("foo", instance("b", "10.0.0.2", 80), true, 120);
    registry.register_instance_at("bar", instance("c", "10.0.0.3", 80), true, 90);
    assert!(registry.get_expired_instances_at(120).is_empty());
    assert_eq!(
        registry.get_expired_instances_at(121),
        vec![LeaseInfo::new("bar".to_string(), instance("c", "10.0.0.3", 80), 90)]
    );
    assert_eq!(registry.get_expired_instances_at(130).len(), 1);
    let mut at_131: Vec<String> = registry
        .get_expired_instances_at(131)
        .into_iter()
        .map(|lease| lease.instance_info.instance_id)
        .collect();
    at_131.sort();
    assert_eq!(at_131, vec!["a", "c"]);
    assert_eq!(registry.get_expired_instances_at(151).len(), 3);
    assert!(registry.renew_lease_at("foo", "a", true, 140));
    assert_eq!(registry.get_expired_instances_at(151).len(), 2);
}

#[test]
fn renew_never_moves_the_time_of_a_lease_backward() {
    let mut registry = ServiceRegistry::new();
    registry.register_instance_at("foo", instance("a", "10.0.0.1", 80), true, 100);
    assert!(registry.renew_lease_at("foo", "a", true, 50));
    assert_eq!(registry.get_instance("foo", "a").unwrap().last_updated_timestamp(), 100);
    assert!(registry.renew_lease_at("foo", "a", true, 100));
    assert_eq!(registry.get_instance("foo", "a").unwrap().last_updated_timestamp(), 100);
    assert!(registry.renew_lease_at("foo", "a", true, 101));
    assert_eq!(registry.get_instance("foo", "a").unwrap().last_updated_timestamp(), 101);
    assert!(registry.renew_lease_at("foo", "a", false, 0));
    assert_eq!(registry.get_instance("foo", "a").unwrap().last_updated_timestamp(), 101);
    assert_eq!(
        registry.take_dispatches(),
        vec![DispatcherMessage::Renew("foo".to_string(), instance("a", "10.0.0.1", 80))]
    );
    let mut last = 101;
    for now in [7u64, 300, 2, 299, 301, 0, u64::MAX, 5] {
        assert!(registry.renew_lease_at("foo", "a", true, now));
        let current = registry.get_instance("foo", "a").unwrap().last_updated_timestamp();
        assert!(current >= last);
        assert_eq!(current, last.max(now));
        last = current;
    }
}

#[test]
fn evict_lease_ends_the_lease_without_a_dispatch() {
    let mut registry = ServiceRegistry::new();
    registry.register_instance_at("foo", instance("a", "10.0.0.1", 80), true, 100);
    let listed = registry.get_expired_instances_at(200).pop().unwrap();
    assert!(registry.renew_lease_at("foo", "a", true, 190));
    let ended = registry.evict_lease(&listed).unwrap();
    assert_eq!(ended.last_updated_timestamp(), 190);
    assert!(registry.evict_lease(&listed).is_none());
    assert_eq!(registry.get_all_instances("foo"), Some(vec![]));
    assert!(registry.take_dispatches().is_empty());
}
