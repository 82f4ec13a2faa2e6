use boxcar::names::NameMap;
use boxcar::registry::{
    InstanceRegistration, KeepAlive, RegistrationHandle, RegistryError, ServiceManager,
    ServiceManagerConfig, ETCD_LEASE_TTL_SEC,
};

fn text_map(name: &str, text: &str) -> NameMap<String> {
    let mut map = NameMap::new();
    map.insert(name.to_string(), text.to_string());
    map
}

fn amount_map(list: &[(&str, usize)]) -> NameMap<usize> {
    let mut map = NameMap::new();
    for (name, amount) in list {
        map.insert(name.to_string(), *amount);
    }
    map
}

fn instance() -> InstanceRegistration {
    InstanceRegistration::new().id("id".to_string())
}

#[test]
fn new_instances_have_defaults() {
    let instance = InstanceRegistration::new();
    assert_eq!(instance.addr, "127.0.0.1");
    assert_eq!(instance.port, 0);
    assert_eq!(instance.proto, "tcp");
    assert_eq!(instance.meta.len(), 0);
    assert_eq!(instance.resources.len(), 0);
    assert_eq!(InstanceRegistration::default().proto, "tcp");
}

#[test]
fn ids_are_random_uuids() {
    let mut seen: Vec<String> = Vec::new();
    for _ in 0..50 {
        let id = InstanceRegistration::new().id;
        assert_eq!(id.len(), 36);
        for (i, c) in id.chars().enumerate() {
            match i {
                8 | 13 | 18 | 23 => assert_eq!(c, '-'),
                14 => assert_eq!(c, '4'),
                19 => assert!("89ab".contains(c)),
                _ => assert!("0123456789abcdef".contains(c)),
            }
        }
        assert!(!seen.contains(&id));
        seen.push(id);
    }
}

#[test]
fn instances_are_built() {
    let built = InstanceRegistration::new()
        .id("id".to_string())
        .addr("127.0.0.2".to_string())
        .port(9)
        .proto("udp".to_string())
        .meta(text_map("a", "b"))
        .resources(amount_map(&[("c", 4)]));
    assert_eq!(built.id, "id");
    assert_eq!(built.addr, "127.0.0.2");
    assert_eq!(built.port, 9);
    assert_eq!(built.proto, "udp");
    assert_eq!(built.meta.get("a"), Some(&"b".to_string()));
    assert_eq!(built.resources.get("c"), Some(&4));
    assert!(built.same(&built.clone()));
}

#[test]
fn instances_are_compared_field_by_field() {
    let base = || instance().meta(text_map("a", "b")).resources(amount_map(&[("c", 4), ("d", 5)]));
    assert!(base().same(&base()));
    assert!(!base().same(&base().id("other".to_string())));
    assert!(!base().same(&base().addr("other".to_string())));
    assert!(!base().same(&base().port(1)));
    assert!(!base().same(&base().proto("other".to_string())));
    assert!(!base().same(&base().meta(text_map("a", "c"))));
    assert!(!base().same(&base().meta(NameMap::new())));
    assert!(!base().same(&base().resources(amount_map(&[("c", 4)]))));
    assert!(!base().resources(amount_map(&[("c", 4)])).same(&base()));
    assert!(!base().same(&base().resources(amount_map(&[("c", 4), ("d", 6)]))));
    // the order of the names does not matter
    assert!(base().same(&base().resources(amount_map(&[("d", 5), ("c", 4)]))));
}

#[test]
fn keys_name_keyspace_service_and_instance() {
    let manager = ServiceManager::new(ServiceManagerConfig::new("test"));
    assert_eq!(manager.service_key("hello_world2"), "test/hello_world2/");
    assert_eq!(manager.instance_key("hello_world2", "id"), "test/hello_world2/id");
    assert!(manager.instance_key("a", "b").starts_with(&manager.service_key("a")));
    assert_ne!(manager.instance_key("a", "b"), manager.instance_key("a", "c"));
}

#[test]
fn lookup_tells_services_apart() {
    let manager = ServiceManager::new(ServiceManagerConfig::new("test"));
    let keys = vec![
        manager.register("hello_world", instance(), 1).path().clone(),
        manager.register("hello_world2", instance(), 2).path().clone(),
    ];
    let front = manager.service_key("hello_world");
    let found: Vec<&String> = keys.iter().filter(|key| key.starts_with(&front)).collect();
    assert_eq!(found, vec!["test/hello_world/id"]);
    let front = manager.service_key("hello_world2");
    let found: Vec<&String> = keys.iter().filter(|key| key.starts_with(&front)).collect();
    assert_eq!(found, vec!["test/hello_world2/id"]);
}

#[test]
fn registered_instance_is_found_by_its_id_only() {
    let manager = ServiceManager::new(ServiceManagerConfig::new("test"));
    let handle = manager.register("hello_world", instance(), 1);
    assert_eq!(&manager.instance_key("hello_world", "id"), handle.path());
    assert_ne!(&manager.instance_key("hello_world", "i"), handle.path());
    assert_ne!(&manager.instance_key("hello_world2", "id"), handle.path());
}

#[test]
fn registered_instance_is_active_until_deregistered() {
    let manager = ServiceManager::new(ServiceManagerConfig::new("test"));
    let mut handle = manager.register("hello_world", instance(), 77);
    assert_eq!(handle.path(), "test/hello_world/id");
    assert_eq!(handle.lease_id(), 77);
    assert!(handle.peak().same(&instance()));
    assert!(handle.active());
    assert_eq!(ETCD_LEASE_TTL_SEC, 10);
    assert_eq!(handle.keep_alive(), KeepAlive::PingAndSleep(5));

    handle.deregister();
    assert!(!handle.active());
    assert_eq!(handle.keep_alive(), KeepAlive::Stop);
}

#[test]
fn updates_are_written_only_if_they_change_something() {
    let mut handle = RegistrationHandle::new(1, "path".to_string(), instance());
    assert!(!handle.update(instance()));
    assert!(handle.update(instance().port(4)));
    assert_eq!(handle.peak().port, 4);
    assert!(!handle.update(instance().port(4)));
    assert!(handle.active());
}

#[test]
fn query_takes_the_first_entry() {
    assert_eq!(ServiceManager::query(vec![vec![1], vec![2]]), Ok(vec![1]));
    assert_eq!(ServiceManager::query(vec![]), Err(RegistryError::NotFound));
}
