use watchtower::instance::InstanceInfo;
use watchtower::server::eviction::{
    choose_victims, select_victims, take_victim, MAX_LEASE_TO_EVICT, RUN_INTERVAL_SEC,
};
use watchtower::server::registry::ServiceRegistry;

fn instance(id: &str) -> InstanceInfo {
    InstanceInfo { instance_id: id.to_string(), ip_addr: "10.0.0.1".to_string(), port: 80 }
}

fn registry_with(count: usize, at: u64) -> ServiceRegistry {
    let mut registry = ServiceRegistry::new();
    for i in 0..count {
        let service = format!("service-{}", i % 7);
        registry.register_instance_at(&service, instance(&format!("instance-{}", i)), true, at);
    }
    registry
}

fn lease_count(registry: &ServiceRegistry) -> usize {
    (0..7)
        .map(|i| registry.get_all_instances(&format!("service-{}", i)).map_or(0, |all| all.len()))
        .sum()
}

#[test]
fn eviction_constants() {
    assert_eq!(MAX_LEASE_TO_EVICT, 50);
    assert_eq!(RUN_INTERVAL_SEC, 15);
    assert_eq!(watchtower::clock::LEASE_TTL_SECONDS, 30);
}

#[test]
fn eviction_removes_every_expired_lease_when_there_are_few() {
    let mut registry = registry_with(10, 100);
    registry.register_instance_at("service-0", instance("fresh"), true, 120);
    registry.evict_at(135);
    assert_eq!(lease_count(&registry), 1);
    assert!(registry.get_instance("service-0", "fresh").is_some());
    assert_eq!(registry.get_all_instances("service-3"), Some(vec![]));
    assert!(registry.take_dispatches().is_empty());
}

#[test]
fn eviction_removes_at_most_fifty_leases() {
    let mut registry = registry_with(120, 100);
    registry.evict_at(131);
    assert_eq!(lease_count(&registry), 70);
    registry.evict_at(131);
    assert_eq!(lease_count(&registry), 20);
    registry.evict_at(131);
    assert_eq!(lease_count(&registry), 0);
    registry.evict_at(131);
    assert_eq!(lease_count(&registry), 0);
}

#[test]
fn eviction_of_exactly_fifty_and_fifty_one() {
    let mut fifty = registry_with(50, 0);
    fifty.evict_at(31);
    assert_eq!(lease_count(&fifty), 0);
    let mut fifty_one = registry_with(51, 0);
    fifty_one.evict_at(31);
    assert_eq!(lease_count(&fifty_one), 1);
}

#[test]
fn eviction_spares_leases_that_are_not_expired() {
    let mut registry = registry_with(60, 100);
    registry.evict_at(130);
    assert_eq!(lease_count(&registry), 60);
    for i in 0..30 {
        let service = format!("service-{}", i % 7);
        assert!(registry.renew_lease_at(&service, &format!("instance-{}", i), true, 125));
    }
    registry.evict_at(131);
    assert_eq!(lease_count(&registry), 30);
    for i in 0..30 {
        let service = format!("service-{}", i % 7);
        assert!(registry.get_instance(&service, &format!("instance-{}", i)).is_some());
    }
}

#[test]
fn eviction_after_thirty_five_seconds_drops_the_instance() {
    let mut registry = ServiceRegistry::new();
    registry.register_instance_at("foo", instance("a"), false, 1_000);
    registry.take_dispatches();
    registry.evict_at(1_035);
    assert!(registry.get_instance("foo", "a").is_none());
    assert_eq!(registry.get_all_instances("foo"), Some(vec![]));
    assert!(!registry.renew_lease_at("foo", "a", false, 1_036));
    assert!(registry.take_dispatches().is_empty());
}

#[test]
fn select_victims_takes_all_candidates_up_to_the_limit() {
    let picked = select_victims(vec![1u32, 2, 3], 50);
    let mut sorted = picked.clone();
    sorted.sort();
    assert_eq!(sorted, vec![1, 2, 3]);
    assert_eq!(select_victims(Vec::<u32>::new(), 50), Vec::<u32>::new());
    assert_eq!(select_victims(vec![1u32, 2, 3], 0), Vec::<u32>::new());
}

#[test]
fn select_victims_draws_distinct_candidates() {
    let candidates: Vec<u32> = (0..200).collect();
    for _ in 0..20 {
        let picked = select_victims(candidates.clone(), 50);
        assert_eq!(picked.len(), 50);
        let mut sorted = picked.clone();
        sorted.sort();
        sorted.dedup();
        assert_eq!(sorted.len(), 50);
        assert!(sorted.iter().all(|p| *p < 200));
    }
}

#[test]
fn select_victims_does_not_always_draw_the_same() {
    let candidates: Vec<u32> = (0..100).collect();
    let first = select_victims(candidates.clone(), 1);
    let mut differs = false;
    for _ in 0..200 {
        if select_victims(candidates.clone(), 1) != first {
            differs = true;
        }
    }
    assert!(differs);
    let mut seen_beyond_the_first_fifty = false;
    for _ in 0..50 {
        if select_victims(candidates.clone(), 50).iter().any(|p| *p >= 50) {
            seen_beyond_the_first_fifty = true;
        }
    }
    assert!(seen_beyond_the_first_fifty);
}

#[test]
fn take_victim_moves_the_drawn_candidate() {
    let mut candidates = vec!['a', 'b', 'c', 'd'];
    let mut victims = vec!['z'];
    take_victim(&mut candidates, &mut victims, 1);
    assert_eq!(victims, vec!['z', 'b']);
    assert_eq!(candidates, vec!['a', 'd', 'c']);
    take_victim(&mut candidates, &mut victims, 2);
    assert_eq!(victims, vec!['z', 'b', 'c']);
    assert_eq!(candidates, vec!['a', 'd']);
}

#[test]
fn choose_victims_draws_at_most_fifty() {
    let few: Vec<u32> = (0..7).collect();
    let mut picked = choose_victims(few.clone());
    picked.sort();
    assert_eq!(picked, few);
    let many: Vec<u32> = (0..51).collect();
    let mut picked = choose_victims(many);
    assert_eq!(picked.len(), 50);
    picked.sort();
    picked.dedup();
    assert_eq!(picked.len(), 50);
    assert!(choose_victims(Vec::<u32>::new()).is_empty());
}
