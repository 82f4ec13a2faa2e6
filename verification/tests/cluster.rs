use boxcar::cluster::{
    candidates, compare_targets, filter_targets, lease_metadata_updater, sort_targets, Client,
    ClusteredCallConfig, Placed, Refresh, Route, Service, METADATA_REFRESH_INTERVAL,
};
use boxcar::message::{HandlerTrait, RpcRequest};
use boxcar::names::NameMap;
use boxcar::registry::{InstanceRegistration, RegistrationHandle};
use boxcar::server::{BindAddr, Server};

fn resources(foo: usize, bar: usize) -> NameMap<usize> {
    let mut map = NameMap::new();
    map.insert("foo".to_string(), foo);
    map.insert("bar".to_string(), bar);
    map
}

fn instance(id: &str, foo: usize, bar: usize) -> InstanceRegistration {
    InstanceRegistration {
        id: id.to_string(),
        addr: "127.0.0.1".to_string(),
        port: 1,
        proto: "".to_string(),
        meta: Default::default(),
        resources: resources(foo, bar),
    }
}

fn get_instances() -> Vec<InstanceRegistration> {
    vec![
        instance("a", 1024, 2048),
        instance("b", 2048, 4096),
        instance("c", 512, 1024),
    ]
}

fn request(foo: usize, bar: usize) -> RpcRequest {
    RpcRequest {
        method: "".to_string(),
        body: vec![],
        subscribe: false,
        resources: resources(foo, bar),
    }
}

fn get_resource_pct(req: &RpcRequest, v: &InstanceRegistration) -> u8 {
    let mut pct = 1.0;
    for i in 0..req.resources.len() {
        let free = *v.resources.get(req.resources.name_at(i)).unwrap();
        pct *= *req.resources.value_at(i) as f64 / free as f64;
    }
    (pct * 100.0) as u8
}

fn pcts(req: &RpcRequest, targets: &Vec<InstanceRegistration>) -> Vec<u8> {
    targets.iter().map(|v| get_resource_pct(req, v)).collect()
}

#[test]
fn test_sparse_packed_instances() {
    let req = request(512, 512);

    let targets = get_instances();
    let order = sort_targets(&pcts(&req, &targets));

    assert_eq!(targets[order[0]].id, "b".to_string());
}

#[test]
fn test_filter_instances() {
    let req = request(1024, 1024);

    let targets = get_instances()
        .into_iter()
        .filter(|v| filter_targets(v, &req))
        .collect::<Vec<InstanceRegistration>>();

    // this should filter out one instance
    assert_eq!(targets.len(), 2);
}

#[test]
fn filter_needs_every_resource() {
    assert!(filter_targets(&instance("a", 1024, 2048), &request(1024, 2048)));
    assert!(!filter_targets(&instance("a", 1024, 2048), &request(1025, 2048)));
    assert!(!filter_targets(&instance("a", 1024, 2048), &request(1024, 2049)));
    let bare = InstanceRegistration::new();
    assert!(!filter_targets(&bare, &request(0, 0)));
    let nothing = RpcRequest { resources: NameMap::new(), ..request(0, 0) };
    assert!(filter_targets(&bare, &nothing));
}

#[test]
fn candidates_keep_their_order() {
    let found = candidates(get_instances(), &request(1024, 1024));
    let ids: Vec<&str> = found.iter().map(|v| v.id.as_str()).collect();
    assert_eq!(ids, vec!["a", "b"]);
    assert_eq!(candidates(get_instances(), &request(5000, 0)).len(), 0);
}

#[test]
fn targets_are_sorted_by_share() {
    assert_eq!(sort_targets(&vec![12, 3, 50]), vec![1, 0, 2]);
    // those with the same share stay in the order in which they were found
    assert_eq!(sort_targets(&vec![7, 3, 7, 3, 0]), vec![4, 1, 3, 0, 2]);
    assert_eq!(sort_targets(&vec![]), Vec::<usize>::new());
    let req = request(512, 512);
    assert_eq!(pcts(&req, &get_instances()), vec![12, 3, 50]);
}

#[test]
fn targets_compare_by_share() {
    assert_eq!(compare_targets(3, 12), Placed::Before);
    assert_eq!(compare_targets(12, 3), Placed::After);
    assert_eq!(compare_targets(12, 12), Placed::Level);
    // a request for nothing takes the same share of all
    let nothing = RpcRequest { resources: NameMap::new(), ..request(0, 0) };
    let shares = pcts(&nothing, &get_instances());
    assert_eq!(compare_targets(shares[0], shares[1]), Placed::Level);
    assert_eq!(sort_targets(&shares), vec![0, 1, 2]);
}

#[test]
fn dense_packing_picks_the_last_in_order() {
    let config = ClusteredCallConfig::new();
    assert_eq!(config.pick_target(&vec![12, 3, 50]), 2);
    assert_eq!(config.pick_target(&vec![50, 3, 50]), 2);
    assert_eq!(config.pick_target(&vec![9]), 0);
}

#[test]
fn client_connects_once_to_each_instance() {
    let mut client: Client<u8> = Client::new("boxcar-testing");
    let mut targets = get_instances();
    targets[2].addr = "10.0.0.3".to_string();
    targets[2].port = 9803;
    let shares = vec![12, 3, 50];
    let config = ClusteredCallConfig::new();

    let (at, route) = client.call(&targets, &shares, &config);
    assert_eq!(at, 2);
    match route {
        Route::Connect(endpoint) => assert_eq!(endpoint, "ws://10.0.0.3:9803"),
        Route::Cached => panic!("there is no connection yet"),
    }
    assert_eq!(client.connection("c"), None);

    client.connected("c".to_string(), 5);
    assert!(matches!(client.call(&targets, &shares, &config), (2, Route::Cached)));
    assert_eq!(client.connection("c"), Some(&5));
    assert!(matches!(client.route(&targets[0]), Route::Connect(_)));
}

#[test]
fn endpoints_are_written_in_decimal() {
    let client: Client<u8> = Client::new("boxcar-testing");
    for port in [0u16, 1, 9, 10, 99, 100, 909, 9930, 10000, 65535] {
        let target = InstanceRegistration::new().port(port);
        match client.route(&target) {
            Route::Connect(endpoint) => assert_eq!(endpoint, format!("ws://127.0.0.1:{}", port)),
            Route::Cached => panic!("there is no connection yet"),
        }
    }
}

struct NoHandler {}

impl HandlerTrait for NoHandler {
    fn contains(&self, _method: &str) -> bool {
        false
    }

    fn package(&self) -> &str {
        ""
    }
}

fn server() -> Server<NoHandler> {
    let mut server: Server<NoHandler> =
        Server::new().bind(BindAddr { ip: "127.0.0.1".to_string(), port: 9803 });
    server.resource_manager.add("foo", 3);
    server
}

#[test]
fn client_finds_what_a_service_registers() {
    let mut metadata = NameMap::new();
    metadata.insert("zone".to_string(), "b".to_string());
    let service = Service::new("boxcar-testing").set_metadata(metadata);
    assert_eq!(service.name(), "boxcar-testing");

    let instance = service.serve(&server());
    assert_eq!(instance.addr, "127.0.0.1");
    assert_eq!(instance.port, 9803);
    assert_eq!(instance.proto, "tcp");
    assert_eq!(instance.meta.get("zone"), Some(&"b".to_string()));
    assert_eq!(instance.resources.get("foo"), Some(&3));
    assert_eq!(instance.resources.len(), 1);
    let id = instance.id.clone();

    let handle = service.service_manager().register(service.name(), instance, 1);
    assert_eq!(handle.path(), &format!("boxcar-cluster/boxcar-testing/{}", id));

    let client: Client<u8> = Client::new("boxcar-testing");
    assert_eq!(client.lookup_key(), "boxcar-cluster/boxcar-testing/");
    assert_eq!(&client.query_key(&id), handle.path());
    assert!(handle.path().starts_with(&client.lookup_key()));
    let other: Client<u8> = Client::new("boxcar-test");
    assert!(!handle.path().starts_with(&other.lookup_key()));
}

#[test]
fn registration_follows_the_pool() {
    assert_eq!(METADATA_REFRESH_INTERVAL, 6);
    let mut server = server();
    let service = Service::new("boxcar-testing");
    let mut handle =
        RegistrationHandle::new(1, "path".to_string(), service.serve(&server));

    let free = server.resource_manager.peak();
    assert_eq!(lease_metadata_updater(&mut handle, free), Refresh::Unchanged);

    let claim = server.resource_manager.consume("foo", 2).unwrap();
    let free = server.resource_manager.peak();
    assert_eq!(lease_metadata_updater(&mut handle, free), Refresh::Write);
    assert_eq!(handle.peak().resources.get("foo"), Some(&1));
    assert_eq!(handle.peak().port, 9803);

    handle.deregister();
    claim.release(&mut server.resource_manager);
    let free = server.resource_manager.peak();
    assert_eq!(lease_metadata_updater(&mut handle, free), Refresh::Stop);
    assert_eq!(handle.peak().resources.get("foo"), Some(&1));
}

#[test]
fn chosen_server_grants_the_request() {
    let mut server = server();
    let instance = Service::new("boxcar-testing").serve(&server);
    let mut wants = NameMap::new();
    wants.insert("foo".to_string(), 3);
    let request = RpcRequest { resources: wants, ..request(0, 0) };
    assert!(filter_targets(&instance, &request));
    assert!(server.resource_manager.consume_all(&request.resources).is_ok());
    let instance = Service::new("boxcar-testing").serve(&server);
    assert!(!filter_targets(&instance, &request));
    assert!(server.resource_manager.consume_all(&request.resources).is_err());
}
