//! Services, and the instances of them that run.
//!
//! Every instance of a service has an entry of its own in a store, which is there for as long as
//! its lease is kept alive.
use crate::names::NameMap;
use vstd::prelude::*;
use vstd::string::*;

verus! {

/// How long an entry stays if its lease is not kept alive, in seconds.
pub const ETCD_LEASE_TTL_SEC: u64 = 10;

/// Where a service manager keeps its entries.
#[derive(Debug)]
pub struct ServiceManagerConfig {
    /// Keyspace Base Path
    keyspace: String,
}

impl ServiceManagerConfig {
    pub closed spec fn keyspace(&self) -> Seq<char> {
        self.keyspace@
    }

    pub fn new(keyspace: &str) -> (config: Self)
        ensures
            config.keyspace() == keyspace@,
    {
        ServiceManagerConfig { keyspace: keyspace.to_owned() }
    }
}

/// What the keys of all instances of a service begin with: {keyspace}/{service}/
pub open spec fn service_key(keyspace: Seq<char>, service: Seq<char>) -> Seq<char> {
    keyspace + "/"@ + service + "/"@
}

/// The key of an instance: {keyspace}/{service}/{instance id}
pub open spec fn instance_key(
    keyspace: Seq<char>,
    service: Seq<char>,
    id: Seq<char>,
) -> Seq<char> {
    service_key(keyspace, service) + id
}

/// The name of a service stands for itself, and not for a part of a tree of services.
pub open spec fn plain(service: Seq<char>) -> bool {
    !service.contains('/')
}

/// A lookup of the service finds every instance of it that is registered.
pub proof fn lookup_covers_instances(keyspace: Seq<char>, service: Seq<char>, id: Seq<char>)
    ensures
        service_key(keyspace, service).is_prefix_of(instance_key(keyspace, service, id)),
{
    assert(service_key(keyspace, service) =~= instance_key(keyspace, service, id).take(
        service_key(keyspace, service).len() as int,
    ));
}

/// A lookup of a service finds the instances of that service, and of no other.
pub proof fn lookup_is_exact(
    keyspace: Seq<char>,
    service: Seq<char>,
    other: Seq<char>,
    id: Seq<char>,
)
    requires
        plain(service),
        plain(other),
    ensures
        service_key(keyspace, service).is_prefix_of(instance_key(keyspace, other, id)) <==> service
            == other,
{
    let front = service_key(keyspace, service);
    let key = instance_key(keyspace, other, id);
    lookup_covers_instances(keyspace, other, id);
    if front.is_prefix_of(key) {
        reveal_strlit("/");
        let at = keyspace.len() as int + 1;
        assert(forall|i: int| 0 <= i < front.len() ==> front[i] == key[i]);
        assert(forall|i: int| 0 <= i < service.len() ==> #[trigger] service[i] == front[at + i]);
        assert(forall|i: int| 0 <= i < other.len() ==> #[trigger] other[i] == key[at + i]);
        assert(front[at + service.len()] == '/');
        assert(key[at + other.len()] == '/');
        if service.len() < other.len() {
            assert(other[service.len() as int] == '/');
        }
        if other.len() < service.len() {
            assert(service[other.len() as int] == '/');
        }
        assert(service =~= other);
    }
}

/// Two instances of a service do not share a key.
pub proof fn instances_have_their_own_keys(
    keyspace: Seq<char>,
    service: Seq<char>,
    id: Seq<char>,
    other: Seq<char>,
)
    requires
        instance_key(keyspace, service, id) == instance_key(keyspace, service, other),
    ensures
        id == other,
{
    let front = service_key(keyspace, service);
    assert((front + id).skip(front.len() as int) =~= id);
    assert((front + other).skip(front.len() as int) =~= other);
}

/// An instance that was registered, and the service that it is one of.
pub struct Registered {
    pub service: Seq<char>,
    pub instance: RegistrationView,
}

/// What a store holds, by key.
pub type Entries = Map<Seq<char>, RegistrationView>;

/// What a store holds once the instances were registered, one after the other.
pub open spec fn entries_of(keyspace: Seq<char>, registered: Seq<Registered>) -> Entries
    decreases registered.len(),
{
    if registered.len() == 0 {
        Map::empty()
    } else {
        let last = registered.last();
        entries_of(keyspace, registered.drop_last()).insert(
            instance_key(keyspace, last.service, last.instance.id),
            last.instance,
        )
    }
}

/// What a store finds under the keys that begin with `front`.
pub open spec fn entries_under(entries: Entries, front: Seq<char>) -> Entries {
    Map::new(
        |key: Seq<char>| entries.contains_key(key) && front.is_prefix_of(key),
        |key: Seq<char>| entries[key],
    )
}

/// What a store finds under a key.
pub open spec fn entry_at(entries: Entries, key: Seq<char>) -> Option<RegistrationView> {
    if entries.contains_key(key) {
        Some(entries[key])
    } else {
        None
    }
}

/// The instances that were registered as instances of the service.
pub open spec fn instances_of(registered: Seq<Registered>, service: Seq<char>) -> Seq<Registered> {
    registered.filter(|r: Registered| r.service == service)
}

/// The last instance of the service that was registered with the id.
pub open spec fn last_registered(
    registered: Seq<Registered>,
    service: Seq<char>,
    id: Seq<char>,
) -> Option<RegistrationView>
    decreases registered.len(),
{
    if registered.len() == 0 {
        None
    } else if registered.last().service == service && registered.last().instance.id == id {
        Some(registered.last().instance)
    } else {
        last_registered(registered.drop_last(), service, id)
    }
}

/// Instances of different services do not share a key.
pub proof fn services_have_their_own_keys(
    keyspace: Seq<char>,
    service: Seq<char>,
    id: Seq<char>,
    other: Seq<char>,
    other_id: Seq<char>,
)
    requires
        plain(service),
        plain(other),
        service != other,
    ensures
        instance_key(keyspace, service, id) != instance_key(keyspace, other, other_id),
{
    lookup_covers_instances(keyspace, service, id);
    lookup_is_exact(keyspace, service, other, other_id);
}

/// Whatever else is registered, a lookup of a service gives what was registered for it, and nothing
/// of any other service, as long as no key of another service begins as the keys of this one do.
/// Among services with plain names, none does.
pub proof fn lookup_gives_the_service(
    keyspace: Seq<char>,
    registered: Seq<Registered>,
    service: Seq<char>,
)
    requires
        forall|i: int|
            0 <= i < registered.len() && (#[trigger] registered[i]).service != service
                ==> !service_key(keyspace, service).is_prefix_of(
                instance_key(keyspace, registered[i].service, registered[i].instance.id),
            ),
    ensures
        entries_under(entries_of(keyspace, registered), service_key(keyspace, service))
            == entries_of(keyspace, instances_of(registered, service)),
    decreases registered.len(),
{
    reveal(Seq::filter);
    let front = service_key(keyspace, service);
    let found = entries_under(entries_of(keyspace, registered), front);
    let wanted = instances_of(registered, service);
    if registered.len() > 0 {
        let earlier = registered.drop_last();
        let last = registered.last();
        assert(registered[registered.len() - 1] == last);
        assert forall|i: int|
            0 <= i < earlier.len() && (#[trigger] earlier[i]).service
                != service implies !front.is_prefix_of(
            instance_key(keyspace, earlier[i].service, earlier[i].instance.id),
        ) by {
            assert(earlier[i] == registered[i]);
        }
        lookup_gives_the_service(keyspace, earlier, service);
        if last.service == service {
            lookup_covers_instances(keyspace, service, last.instance.id);
            assert(wanted =~= instances_of(earlier, service).push(last));
            assert(wanted.drop_last() =~= instances_of(earlier, service));
        } else {
            assert(wanted =~= instances_of(earlier, service));
        }
    }
    assert(found =~= entries_of(keyspace, wanted));
}

/// A query for an id gives the instance of the service that was registered with it last, and
/// nothing if the service has no such instance, as long as no instance of another service was
/// registered under the key that is queried. Among services with plain names, none can be.
pub proof fn query_gives_the_instance(
    keyspace: Seq<char>,
    registered: Seq<Registered>,
    service: Seq<char>,
    id: Seq<char>,
)
    requires
        forall|i: int|
            0 <= i < registered.len() && (#[trigger] registered[i]).service != service
                ==> instance_key(keyspace, registered[i].service, registered[i].instance.id)
                != instance_key(keyspace, service, id),
    ensures
        entry_at(entries_of(keyspace, registered), instance_key(keyspace, service, id))
            == last_registered(registered, service, id),
    decreases registered.len(),
{
    if registered.len() > 0 {
        let earlier = registered.drop_last();
        let last = registered.last();
        let key = instance_key(keyspace, service, id);
        assert(registered[registered.len() - 1] == last);
        assert forall|i: int|
            0 <= i < earlier.len() && (#[trigger] earlier[i]).service
                != service implies instance_key(
            keyspace,
            earlier[i].service,
            earlier[i].instance.id,
        ) != key by {
            assert(earlier[i] == registered[i]);
        }
        query_gives_the_instance(keyspace, earlier, service, id);
        if key == instance_key(keyspace, last.service, last.instance.id) {
            instances_have_their_own_keys(keyspace, service, id, last.instance.id);
        }
    }
}

/// The key that is queried for an id is the key under which an instance was registered if, and only
/// if, it is the id of that instance.
pub proof fn registered_key_is_queried_key(
    keyspace: Seq<char>,
    service: Seq<char>,
    handle: HandleView,
    id: Seq<char>,
)
    requires
        handle.path == instance_key(keyspace, service, handle.instance.id),
    ensures
        instance_key(keyspace, service, id) == handle.path <==> id == handle.instance.id,
{
    if instance_key(keyspace, service, id) == handle.path {
        instances_have_their_own_keys(keyspace, service, id, handle.instance.id);
    }
}

/// A digit of a number to the base 16.
pub open spec fn is_hex_digit(c: char) -> bool {
    ('0' <= c && c <= '9') || ('a' <= c && c <= 'f')
}

/// The text of a random UUID: 32 digits to the base 16 with four hyphens between them. The digit
/// after the second hyphen is the version, 4, and the one after the third tells the variant.
pub open spec fn is_random_uuid(text: Seq<char>) -> bool {
    &&& text.len() == 36
    &&& text[14] == '4'
    &&& text[19] == '8' || text[19] == '9' || text[19] == 'a' || text[19] == 'b'
    &&& forall|i: int|
        0 <= i < 36 ==> if i == 8 || i == 13 || i == 18 || i == 23 {
            #[trigger] text[i] == '-'
        } else {
            is_hex_digit(text[i])
        }
}

/// Calls `uuid::Uuid::new_v4`, and `to_string` on the result.
///
/// Claimed: the text is that of a UUID of version 4 and of the usual variant, with hyphens and in
/// lower case. The other digits are random.
#[verifier::external_body]
fn random_uuid() -> (text: String)
    ensures
        is_random_uuid(text@),
{
    uuid::Uuid::new_v4().to_string()
}

/// An id that no other instance has, as far as chance can see to that.
pub fn fresh_id() -> (text: String)
    ensures
        is_random_uuid(text@),
{
    random_uuid()
}

/// The id was drawn for an instance.
pub open spec fn drawn_id(id: Seq<char>) -> bool {
    exists|text: String| #[trigger] call_ensures(fresh_id, (), text) && text@ == id
}

/// What is known of a running instance of a service.
#[derive(Debug)]
pub struct InstanceRegistration {
    /// Service ID
    pub id: String,
    /// Service Address. Can be a IP address or Hostname
    pub addr: String,
    /// Service Port
    pub port: u16,
    /// Protocol
    pub proto: String,
    /// Meta fields
    pub meta: NameMap<String>,
    /// What is free of each resource
    pub resources: NameMap<usize>,
}

#[verifier::ext_equal]
pub struct RegistrationView {
    pub id: Seq<char>,
    pub addr: Seq<char>,
    pub port: u16,
    pub proto: Seq<char>,
    pub meta: Map<Seq<char>, Seq<char>>,
    pub resources: Map<Seq<char>, usize>,
}

/// The texts in a map of strings.
pub open spec fn texts(map: Map<Seq<char>, String>) -> Map<Seq<char>, Seq<char>> {
    map.map_values(|text: String| text@)
}

impl View for InstanceRegistration {
    type V = RegistrationView;

    open spec fn view(&self) -> RegistrationView {
        RegistrationView {
            id: self.id@,
            addr: self.addr@,
            port: self.port,
            proto: self.proto@,
            meta: texts(self.meta@),
            resources: self.resources@,
        }
    }
}

/// Is everything that `a` holds also in `b`?
fn texts_included(a: &NameMap<String>, b: &NameMap<String>) -> (yes: bool)
    ensures
        yes == (forall|name: Seq<char>| #[trigger]
            a@.contains_key(name) ==> b@.contains_key(name) && a@[name]@ == b@[name]@),
{
    let count = a.len();
    let ghost order = a.order();
    let mut i: usize = 0;
    while i < count
        invariant
            i <= count,
            count == order.len(),
            order == a.order(),
            forall|j: int|
                0 <= j < i ==> b@.contains_key(#[trigger] order[j]) && a@[order[j]]@
                    == b@[order[j]]@,
        decreases count - i,
    {
        let name = a.name_at(i);
        match b.get(name.as_str()) {
            None => {
                return false;
            },
            Some(text) => {
                if *a.value_at(i) != *text {
                    return false;
                }
            },
        }
        i += 1;
    }
    proof {
        assert forall|name: Seq<char>| #[trigger] a@.contains_key(name) implies b@.contains_key(name)
            && a@[name]@ == b@[name]@ by {
            assert(order.contains(name));
            let j = choose|j: int| 0 <= j < order.len() && order[j] == name;
            assert(b@.contains_key(order[j]));
        }
    }
    true
}

/// Is everything that `a` holds also in `b`?
fn amounts_included(a: &NameMap<usize>, b: &NameMap<usize>) -> (yes: bool)
    ensures
        yes == (forall|name: Seq<char>| #[trigger]
            a@.contains_key(name) ==> b@.contains_key(name) && a@[name] == b@[name]),
{
    let count = a.len();
    let ghost order = a.order();
    let mut i: usize = 0;
    while i < count
        invariant
            i <= count,
            count == order.len(),
            order == a.order(),
            forall|j: int|
                0 <= j < i ==> b@.contains_key(#[trigger] order[j]) && a@[order[j]] == b@[order[j]],
        decreases count - i,
    {
        let name = a.name_at(i);
        match b.get(name.as_str()) {
            None => {
                return false;
            },
            Some(amount) => {
                if *a.value_at(i) != *amount {
                    return false;
                }
            },
        }
        i += 1;
    }
    proof {
        assert forall|name: Seq<char>| #[trigger] a@.contains_key(name) implies b@.contains_key(name)
            && a@[name] == b@[name] by {
            assert(order.contains(name));
            let j = choose|j: int| 0 <= j < order.len() && order[j] == name;
            assert(b@.contains_key(order[j]));
        }
    }
    true
}

impl InstanceRegistration {
    /// A local instance with an id of its own, about which nothing else is known.
    pub fn new() -> (instance: Self)
        ensures
            is_random_uuid(instance.id@),
            drawn_id(instance.id@),
            instance@ == (RegistrationView {
                id: instance.id@,
                addr: "127.0.0.1"@,
                port: 0,
                proto: "tcp"@,
                meta: Map::empty(),
                resources: Map::empty(),
            }),
    {
        let instance = InstanceRegistration {
            id: fresh_id(),
            addr: "127.0.0.1".to_owned(),
            port: 0,
            proto: "tcp".to_owned(),
            meta: NameMap::new(),
            resources: NameMap::new(),
        };
        assert(instance@.meta =~= Map::empty());
        instance
    }

    pub fn id(self, id: String) -> (instance: Self)
        ensures
            instance == (InstanceRegistration { id, ..self }),
    {
        InstanceRegistration {
            id,
            addr: self.addr,
            port: self.port,
            proto: self.proto,
            meta: self.meta,
            resources: self.resources,
        }
    }

    pub fn addr(self, addr: String) -> (instance: Self)
        ensures
            instance == (InstanceRegistration { addr, ..self }),
    {
        InstanceRegistration {
            id: self.id,
            addr,
            port: self.port,
            proto: self.proto,
            meta: self.meta,
            resources: self.resources,
        }
    }

    pub fn port(self, port: u16) -> (instance: Self)
        ensures
            instance == (InstanceRegistration { port, ..self }),
    {
        InstanceRegistration {
            id: self.id,
            addr: self.addr,
            port,
            proto: self.proto,
            meta: self.meta,
            resources: self.resources,
        }
    }

    pub fn proto(self, proto: String) -> (instance: Self)
        ensures
            instance == (InstanceRegistration { proto, ..self }),
    {
        InstanceRegistration {
            id: self.id,
            addr: self.addr,
            port: self.port,
            proto,
            meta: self.meta,
            resources: self.resources,
        }
    }

    pub fn meta(self, meta: NameMap<String>) -> (instance: Self)
        ensures
            instance == (InstanceRegistration { meta, ..self }),
    {
        InstanceRegistration {
            id: self.id,
            addr: self.addr,
            port: self.port,
            proto: self.proto,
            meta,
            resources: self.resources,
        }
    }

    pub fn resources(self, resources: NameMap<usize>) -> (instance: Self)
        ensures
            instance == (InstanceRegistration { resources, ..self }),
    {
        InstanceRegistration {
            id: self.id,
            addr: self.addr,
            port: self.port,
            proto: self.proto,
            meta: self.meta,
            resources,
        }
    }

    /// Do the two say the same?
    pub fn same(&self, other: &InstanceRegistration) -> (yes: bool)
        ensures
            yes == (self@ == other@),
    {
        let yes = self.id == other.id && self.addr == other.addr && self.port == other.port
            && self.proto == other.proto && texts_included(&self.meta, &other.meta)
            && texts_included(&other.meta, &self.meta) && amounts_included(
            &self.resources,
            &other.resources,
        ) && amounts_included(&other.resources, &self.resources);
        proof {
            if yes {
                assert(self@.meta =~= other@.meta);
                assert(self@.resources =~= other@.resources);
            } else if self@ == other@ {
                assert forall|name: Seq<char>| #[trigger] self.meta@.contains_key(name) implies
                    other.meta@.contains_key(name) && self.meta@[name]@ == other.meta@[name]@ by {
                    assert(self@.meta.contains_key(name) && other@.meta.contains_key(name));
                    assert(self@.meta[name] == other@.meta[name]);
                }
                assert forall|name: Seq<char>| #[trigger] other.meta@.contains_key(name) implies
                    self.meta@.contains_key(name) && self.meta@[name]@ == other.meta@[name]@ by {
                    assert(self@.meta.contains_key(name) && other@.meta.contains_key(name));
                    assert(self@.meta[name] == other@.meta[name]);
                }
            }
        }
        yes
    }
}

impl Clone for InstanceRegistration {
    fn clone(&self) -> (copy: Self)
        ensures
            copy@ == self@,
    {
        let copy = InstanceRegistration {
            id: self.id.clone(),
            addr: self.addr.clone(),
            port: self.port,
            proto: self.proto.clone(),
            meta: self.meta.clone(),
            resources: self.resources.clone(),
        };
        assert(copy@.meta =~= self@.meta);
        assert(copy@.resources =~= self@.resources);
        copy
    }
}

impl Default for InstanceRegistration {
    fn default() -> (instance: Self)
        ensures
            is_random_uuid(instance.id@),
            drawn_id(instance.id@),
            instance@ == (RegistrationView {
                id: instance.id@,
                addr: "127.0.0.1"@,
                port: 0,
                proto: "tcp"@,
                meta: Map::empty(),
                resources: Map::empty(),
            }),
    {
        Self::new()
    }
}

/// What keeps the lease of an entry alive does next.
#[derive(Clone, Copy, Debug, PartialEq, Eq, Structural)]
pub enum KeepAlive {
    /// Send a keep alive request, whatever becomes of it, and come back after so many seconds
    PingAndSleep(u64),
    /// Let the lease expire
    Stop,
}

/// The state of a registration.
#[verifier::ext_equal]
pub struct HandleView {
    pub path: Seq<char>,
    pub lease_id: i64,
    pub instance: RegistrationView,
    pub active: bool,
}

/// Represents a registered instance.
/// Once it is deregistered, its lease is no longer kept alive.
/// The .update method can be used to update the meta key/value store inside the service
/// registration
pub struct RegistrationHandle {
    path: String,
    lease_id: i64,
    instance: InstanceRegistration,
    lease_enabled: bool,
}

impl View for RegistrationHandle {
    type V = HandleView;

    closed spec fn view(&self) -> HandleView {
        HandleView {
            path: self.path@,
            lease_id: self.lease_id,
            instance: self.instance@,
            active: self.lease_enabled,
        }
    }
}

impl RegistrationHandle {
    pub fn new(lease_id: i64, path: String, instance: InstanceRegistration) -> (handle: Self)
        ensures
            handle@ == (HandleView { path: path@, lease_id, instance: instance@, active: true }),
    {
        RegistrationHandle { path, lease_id, instance, lease_enabled: true }
    }

    /// Update the Service InstanceRegistration. Returns if there is a change to write to the entry.
    pub fn update(&mut self, instance: InstanceRegistration) -> (changed: bool)
        ensures
            changed == (old(self)@.instance != instance@),
            final(self)@ == (HandleView { instance: instance@, ..old(self)@ }),
    {
        if self.instance.same(&instance) {
            return false;
        }
        self.instance = instance;
        true
    }

    pub fn peak(&self) -> (instance: InstanceRegistration)
        ensures
            instance@ == self@.instance,
    {
        self.instance.clone()
    }

    /// The key of the entry.
    pub fn path(&self) -> (path: &String)
        ensures
            path@ == self@.path,
    {
        &self.path
    }

    /// The lease of the entry.
    pub fn lease_id(&self) -> (lease_id: i64)
        ensures
            lease_id == self@.lease_id,
    {
        self.lease_id
    }

    /// Deregister the service. Same as dropping the handle
    pub fn deregister(&mut self)
        ensures
            final(self)@ == (HandleView { active: false, ..old(self)@ }),
    {
        self.lease_enabled = false;
    }

    /// Return if the lease is active or not
    pub fn active(&self) -> (active: bool)
        ensures
            active == self@.active,
    {
        self.lease_enabled
    }

    /// What to do to keep the lease alive: two requests for as long as it would last.
    pub fn keep_alive(&self) -> (step: KeepAlive)
        ensures
            step == (if self@.active {
                KeepAlive::PingAndSleep((ETCD_LEASE_TTL_SEC / 2) as u64)
            } else {
                KeepAlive::Stop
            }),
    {
        if !self.lease_enabled {
            KeepAlive::Stop
        } else {
            KeepAlive::PingAndSleep(ETCD_LEASE_TTL_SEC / 2)
        }
    }
}

#[derive(Clone, Copy, Debug, PartialEq, Eq, Structural)]
pub enum RegistryError {
    /// There is no such instance
    NotFound,
}

pub struct ServiceManager {
    config: ServiceManagerConfig,
}

impl ServiceManager {
    pub closed spec fn keyspace(&self) -> Seq<char> {
        self.config.keyspace()
    }

    pub fn new(config: ServiceManagerConfig) -> (manager: Self)
        ensures
            manager.keyspace() == config.keyspace(),
    {
        ServiceManager { config }
    }

    /// The key of an instance
    pub fn instance_key(&self, service: &str, id: &str) -> (key: String)
        ensures
            key@ == instance_key(self.keyspace(), service@, id@),
    {
        let mut key = self.service_key(service);
        key.append(id);
        key
    }

    /// What the keys of all instances of the service begin with
    pub fn service_key(&self, service: &str) -> (key: String)
        ensures
            key@ == service_key(self.keyspace(), service@),
    {
        let mut key = self.config.keyspace.clone();
        key.append("/");
        key.append(service);
        key.append("/");
        key
    }

    /// Registers the given instance under the lease that was granted for it, returning a
    /// RegistrationHandle.
    pub fn register(&self, service: &str, instance: InstanceRegistration, lease_id: i64) -> (handle:
        RegistrationHandle)
        ensures
            handle@ == (HandleView {
                path: instance_key(self.keyspace(), service@, instance.id@),
                lease_id,
                instance: instance@,
                active: true,
            }),
    {
        let key = self.instance_key(service, instance.id.as_str());
        RegistrationHandle::new(lease_id, key, instance)
    }

    /// The entry of a specific instance, given what the store has under its key
    pub fn query(mut entries: Vec<Vec<u8>>) -> (entry: Result<Vec<u8>, RegistryError>)
        ensures
            match entry {
                Ok(entry) => entries@.len() > 0 && entry == entries@[0],
                Err(error) => entries@.len() == 0 && error == RegistryError::NotFound,
            },
    {
        if entries.len() > 0 {
            Ok(entries.remove(0))
        } else {
            Err(RegistryError::NotFound)
        }
    }
}

} // verus!
