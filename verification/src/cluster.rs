//! Servers that together form a cluster.
//!
//! Every server of a cluster registers itself as an instance of a service. A client looks the
//! instances up and picks one for each request, by what is free of the resources that the request
//! asks for.
use crate::message::{RequestView, RpcRequest};
use crate::names::NameMap;
use crate::rcm::{affordable, all_affordable};
use crate::registry::{
    drawn_id, instance_key, is_random_uuid, lookup_covers_instances, service_key, texts, HandleView,
    InstanceRegistration, RegistrationHandle, RegistrationView, ServiceManager,
    ServiceManagerConfig,
};
use crate::server::Server;
use vstd::prelude::*;
use vstd::string::*;

verus! {

/// The time between two updates of what is free of the resources of a server, in seconds.
pub const METADATA_REFRESH_INTERVAL: u64 = 6;

/// The manager of the services that make up clusters.
fn cluster_manager() -> (manager: ServiceManager)
    ensures
        manager.keyspace() == "boxcar-cluster"@,
{
    ServiceManager::new(ServiceManagerConfig::new("boxcar-cluster"))
}

/// A server's membership in a cluster.
pub struct Service {
    name: String,
    service_manager: ServiceManager,
    metadata: NameMap<String>,
}

pub struct ServiceView {
    pub name: Seq<char>,
    pub keyspace: Seq<char>,
    pub metadata: Map<Seq<char>, Seq<char>>,
}

impl View for Service {
    type V = ServiceView;

    closed spec fn view(&self) -> ServiceView {
        ServiceView {
            name: self.name@,
            keyspace: self.service_manager.keyspace(),
            metadata: texts(self.metadata@),
        }
    }
}

impl Service {
    pub fn new(name: &str) -> (service: Self)
        ensures
            service@ == (ServiceView {
                name: name@,
                keyspace: "boxcar-cluster"@,
                metadata: Map::empty(),
            }),
    {
        let service = Service {
            name: name.to_owned(),
            service_manager: cluster_manager(),
            metadata: NameMap::new(),
        };
        assert(service@.metadata =~= Map::empty());
        service
    }

    pub fn set_metadata(self, metadata: NameMap<String>) -> (service: Self)
        ensures
            service@ == (ServiceView { metadata: texts(metadata@), ..self@ }),
    {
        Service { name: self.name, service_manager: self.service_manager, metadata }
    }

    pub fn name(&self) -> (name: &String)
        ensures
            name@ == self@.name,
    {
        &self.name
    }

    pub fn service_manager(&self) -> (manager: &ServiceManager)
        ensures
            manager.keyspace() == self@.keyspace,
    {
        &self.service_manager
    }

    /// What a server that joins the cluster is registered as.
    pub fn serve<H>(&self, server: &Server<H>) -> (instance: InstanceRegistration)
        ensures
            is_random_uuid(instance.id@),
            drawn_id(instance.id@),
            instance@ == (RegistrationView {
                id: instance.id@,
                addr: server.bind.ip@,
                port: server.bind.port,
                proto: "tcp"@,
                meta: self@.metadata,
                resources: server.resource_manager@,
            }),
    {
        let meta = self.metadata.clone();
        assert(texts(meta@) =~= texts(self.metadata@));
        InstanceRegistration::new().addr(server.bind.ip.clone()).port(server.bind.port).meta(
            meta,
        ).resources(server.resource_manager.peak())
    }
}

/// What the updater of a registration does next.
#[derive(Clone, Copy, Debug, PartialEq, Eq, Structural)]
pub enum Refresh {
    /// The registration is no longer active. There is nothing to update any more
    Stop,
    /// The entry says already what is to be said
    Unchanged,
    /// Write the registration to its entry
    Write,
}

/// Update what a registration says of the resources that are free.
pub fn lease_metadata_updater(handle: &mut RegistrationHandle, resources: NameMap<usize>) -> (step:
    Refresh)
    ensures
        if !old(handle)@.active {
            step == Refresh::Stop && final(handle)@ == old(handle)@
        } else {
            &&& step == (if old(handle)@.instance.resources == resources@ {
                Refresh::Unchanged
            } else {
                Refresh::Write
            })
            &&& final(handle)@ == (HandleView {
                instance: RegistrationView { resources: resources@, ..old(handle)@.instance },
                ..old(handle)@
            })
        },
{
    if !handle.active() {
        return Refresh::Stop;
    }
    let instance = handle.peak().resources(resources);
    assert(instance@ == (RegistrationView { resources: resources@, ..handle@.instance }));
    if handle.update(instance) {
        Refresh::Write
    } else {
        Refresh::Unchanged
    }
}

/// Does the instance have what the request asks for?
pub fn filter_targets(v: &InstanceRegistration, inner: &RpcRequest) -> (matched: bool)
    ensures
        matched == all_affordable(v.resources@, inner.resources@),
{
    let count = inner.resources.len();
    let ghost order = inner.resources.order();
    let ghost wants = inner.resources@;
    let mut i: usize = 0;
    // match every resource in the request to the target node
    while i < count
        invariant
            i <= count,
            count == order.len(),
            order == inner.resources.order(),
            wants == inner.resources@,
            forall|j: int|
                0 <= j < i ==> affordable(v.resources@, #[trigger] order[j], wants[order[j]]),
        decreases count - i,
    {
        let name = inner.resources.name_at(i);
        let amount = inner.resources.value_at(i);
        match v.resources.get(name.as_str()) {
            None => {
                return false;
            },
            Some(free) => {
                if *free < *amount {
                    return false;
                }
            },
        }
        i += 1;
    }
    proof {
        assert forall|name: Seq<char>| #[trigger] wants.contains_key(name) implies affordable(
            v.resources@,
            name,
            wants[name],
        ) by {
            assert(order.contains(name));
            let j = choose|j: int| 0 <= j < order.len() && order[j] == name;
            assert(affordable(v.resources@, order[j], wants[order[j]]));
        }
    }
    true
}

/// The instances that have what the request asks for, in the order in which they were found.
pub fn candidates(found: Vec<InstanceRegistration>, inner: &RpcRequest) -> (targets: Vec<
    InstanceRegistration,
>)
    ensures
        targets@ == found@.filter(
            |v: InstanceRegistration| all_affordable(v.resources@, inner.resources@),
        ),
        forall|i: int|
            0 <= i < targets@.len() ==> all_affordable(
                (#[trigger] targets@[i]).resources@,
                inner.resources@,
            ),
{
    let ghost suits = |v: InstanceRegistration| all_affordable(v.resources@, inner.resources@);
    let ghost all = found@;
    let ghost mut done: int = 0;
    let mut rest = found;
    let mut targets: Vec<InstanceRegistration> = Vec::new();
    proof {
        reveal(Seq::filter);
        assert(all.take(0).filter(suits) =~= Seq::empty());
        assert(all.skip(0) =~= all);
    }
    while rest.len() > 0
        invariant
            0 <= done <= all.len(),
            rest@ == all.skip(done),
            suits == (|v: InstanceRegistration| all_affordable(v.resources@, inner.resources@)),
            targets@ == all.take(done).filter(suits),
            forall|i: int|
                0 <= i < targets@.len() ==> all_affordable(
                    (#[trigger] targets@[i]).resources@,
                    inner.resources@,
                ),
        decreases rest@.len(),
    {
        let v = rest.remove(0);
        proof {
            reveal(Seq::filter);
            assert(v == all[done]);
            assert(all.take(done + 1).drop_last() =~= all.take(done));
            assert(rest@ =~= all.skip(done + 1));
            done = done + 1;
        }
        if filter_targets(&v, inner) {
            targets.push(v);
        }
    }
    assert(all.take(done) =~= all);
    targets
}

/// How two targets compare.
#[derive(Clone, Copy, Debug, PartialEq, Eq, Structural)]
pub enum Placed {
    /// The first one comes first
    Before,
    /// Neither comes first
    Level,
    /// The second one comes first
    After,
}

impl Placed {
    /// How the two compare the other way round.
    pub open spec fn reversed(self) -> Placed {
        match self {
            Placed::Before => Placed::After,
            Placed::Level => Placed::Level,
            Placed::After => Placed::Before,
        }
    }
}

/// How two targets compare, by the share of their resources that a request would take.
pub open spec fn placed(a: u8, b: u8) -> Placed {
    if a < b {
        Placed::Before
    } else if a == b {
        Placed::Level
    } else {
        Placed::After
    }
}

/// Compare target instances, by the share of their resources that a request would take. Forward
/// order is sparsely packed instances. Reverse order is Densely Packed
pub fn compare_targets(a: u8, b: u8) -> (order: Placed)
    ensures
        order == placed(a, b),
{
    if a < b {
        Placed::Before
    } else if a == b {
        Placed::Level
    } else {
        Placed::After
    }
}

/// However the share that a request takes of an instance is computed, comparing instances by it
/// orders them: it does not matter which of two is named first, an instance is level with itself,
/// and what does not come after an instance does not come after anything that the instance does not
/// come after. Instances of which a request takes the same share are level.
pub proof fn comparison_is_an_order(
    share: spec_fn(RequestView, RegistrationView) -> u8,
    inner: RequestView,
    a: RegistrationView,
    b: RegistrationView,
    c: RegistrationView,
)
    ensures
        placed(share(inner, b), share(inner, a)) == placed(
            share(inner, a),
            share(inner, b),
        ).reversed(),
        placed(share(inner, a), share(inner, a)) == Placed::Level,
        placed(share(inner, a), share(inner, b)) != Placed::After && placed(
            share(inner, b),
            share(inner, c),
        ) != Placed::After ==> placed(share(inner, a), share(inner, c)) != Placed::After,
        share(inner, a) == share(inner, b) ==> placed(share(inner, a), share(inner, b))
            == Placed::Level,
{
}

/// The target with the number `i` comes before the one with the number `j`: it has the lower share
/// of its resources taken by the request, or the same share and was found earlier.
pub open spec fn comes_before(pcts: Seq<u8>, i: int, j: int) -> bool {
    match placed(pcts[i], pcts[j]) {
        Placed::Before => true,
        Placed::Level => i < j,
        Placed::After => false,
    }
}

/// Any two targets come in a definite order: no target comes before itself, one of two different
/// targets comes before the other and not the other way round, and what comes before a target comes
/// before all that the target comes before. The lower share decides, and of equal shares the one
/// that was found earlier.
pub proof fn targets_are_ordered(pcts: Seq<u8>, i: int, j: int, k: int)
    ensures
        !comes_before(pcts, i, i),
        i != j ==> comes_before(pcts, i, j) != comes_before(pcts, j, i),
        comes_before(pcts, i, j) && comes_before(pcts, j, k) ==> comes_before(pcts, i, k),
        pcts[i] < pcts[j] ==> comes_before(pcts, i, j),
        pcts[i] == pcts[j] ==> (comes_before(pcts, i, j) <==> i < j),
{
}

/// `order` lists the numbers of all targets, and every one before those that it comes before.
pub open spec fn in_order(pcts: Seq<u8>, order: Seq<usize>) -> bool {
    &&& order.len() == pcts.len()
    &&& forall|i: int| 0 <= i < order.len() ==> 0 <= #[trigger] order[i] < pcts.len()
    &&& forall|i: int, j: int|
        0 <= i < j < order.len() ==> comes_before(
            pcts,
            #[trigger] order[i] as int,
            #[trigger] order[j] as int,
        )
    &&& forall|k: usize| 0 <= k < pcts.len() ==> #[trigger] order.contains(k)
}

/// Order the targets by the share of their resources that the request would take, in percent.
/// Forward order is sparsely packed instances. Reverse order is Densely Packed
pub fn sort_targets(pcts: &Vec<u8>) -> (order: Vec<usize>)
    ensures
        in_order(pcts@, order@),
{
    let mut order: Vec<usize> = Vec::new();
    let mut n: usize = 0;
    while n < pcts.len()
        invariant
            n <= pcts@.len(),
            order@.len() == n,
            forall|i: int| 0 <= i < n ==> 0 <= #[trigger] order@[i] < n,
            forall|i: int, j: int|
                0 <= i < j < n ==> comes_before(
                    pcts@,
                    #[trigger] order@[i] as int,
                    #[trigger] order@[j] as int,
                ),
            forall|k: usize| 0 <= k < n ==> #[trigger] order@.contains(k),
        decreases pcts@.len() - n,
    {
        let mut p: usize = n;
        while p > 0 && compare_targets(pcts[order[p - 1]], pcts[n]) == Placed::After
            invariant
                p <= n,
                n < pcts@.len(),
                order@.len() == n,
                forall|i: int| 0 <= i < n ==> 0 <= #[trigger] order@[i] < n,
                forall|i: int| p <= i < n ==> pcts@[#[trigger] order@[i] as int] > pcts@[n as int],
            decreases p,
        {
            p -= 1;
        }
        let ghost before = order@;
        order.insert(p, n);
        proof {
            assert(order@ =~= before.insert(p as int, n));
            assert forall|i: int, j: int| 0 <= i < j < n + 1 implies comes_before(
                pcts@,
                #[trigger] order@[i] as int,
                #[trigger] order@[j] as int,
            ) by {
                if i < p && p > 0 {
                    assert(order@[i] == before[i]);
                    if i < p - 1 {
                        assert(comes_before(pcts@, before[i] as int, before[p - 1] as int));
                    }
                }
                if j > p {
                    assert(order@[j] == before[j - 1]);
                }
                if i > p {
                    assert(order@[i] == before[i - 1]);
                }
                if j < p {
                    assert(order@[j] == before[j]);
                }
            }
            assert forall|k: usize| 0 <= k < n + 1 implies #[trigger] order@.contains(k) by {
                if k == n {
                    assert(order@[p as int] == k);
                } else {
                    assert(before.contains(k));
                    let i = choose|i: int| 0 <= i < before.len() && before[i] == k;
                    if i < p {
                        assert(order@[i] == k);
                    } else {
                        assert(order@[i + 1] == k);
                    }
                }
            }
        }
        n += 1;
    }
    order
}

/// The target is the last in order if requests are packed densely, and else the first.
pub open spec fn picked(pcts: Seq<u8>, dense_pack: bool, target: int) -> bool {
    forall|k: int|
        0 <= k < pcts.len() && k != target ==> if dense_pack {
            comes_before(pcts, k, target)
        } else {
            comes_before(pcts, target, k)
        }
}

/// How a request is placed in a cluster.
#[derive(Debug)]
pub struct ClusteredCallConfig {
    dense_pack: bool,
}

impl ClusteredCallConfig {
    /// Requests fill up the instances that are used most.
    pub closed spec fn dense_pack(&self) -> bool {
        self.dense_pack
    }

    pub fn new() -> (config: Self)
        ensures
            config.dense_pack(),
    {
        Self { dense_pack: true }
    }

    /// The number of the target that a request goes to, given the share of the resources of each
    /// that it would take. Packed densely, it goes to the last in order, else to the first.
    pub fn pick_target(&self, pcts: &Vec<u8>) -> (target: usize)
        requires
            pcts@.len() > 0,
        ensures
            target < pcts@.len(),
            self.dense_pack() ==> forall|k: int|
                0 <= k < pcts@.len() && k != target ==> #[trigger] comes_before(
                    pcts@,
                    k,
                    target as int,
                ),
            !self.dense_pack() ==> forall|k: int|
                0 <= k < pcts@.len() && k != target ==> #[trigger] comes_before(
                    pcts@,
                    target as int,
                    k,
                ),
    {
        let order = sort_targets(pcts);
        let count = order.len();
        let at: usize = if self.dense_pack {
            count - 1
        } else {
            0
        };
        proof {
            let target = order@[at as int] as int;
            assert forall|k: int| 0 <= k < pcts@.len() && k != target implies (if self.dense_pack() {
                comes_before(pcts@, k, target)
            } else {
                comes_before(pcts@, target, k)
            }) by {
                assert(order@.contains(k as usize));
                let i = choose|i: int| 0 <= i < order@.len() && order@[i] == k as usize;
                assert(order@[i] as int == k);
            }
        }
        order[at]
    }
}

/// The digits of a number to the base ten.
pub open spec fn decimal(n: nat) -> Seq<char>
    decreases n,
{
    if n < 10 {
        seq![digit(n)]
    } else {
        decimal(n / 10).push(digit(n % 10))
    }
}

/// The character of a digit.
pub open spec fn digit(d: nat) -> char {
    ('0' as u32 + d) as u32 as char
}

fn digit_text(d: u16) -> (text: &'static str)
    requires
        d < 10,
    ensures
        text@ == seq![digit(d as nat)],
{
    proof {
        reveal_strlit("0");
        reveal_strlit("1");
        reveal_strlit("2");
        reveal_strlit("3");
        reveal_strlit("4");
        reveal_strlit("5");
        reveal_strlit("6");
        reveal_strlit("7");
        reveal_strlit("8");
        reveal_strlit("9");
    }
    let text = match d {
        0 => "0",
        1 => "1",
        2 => "2",
        3 => "3",
        4 => "4",
        5 => "5",
        6 => "6",
        7 => "7",
        8 => "8",
        _ => "9",
    };
    assert(text@ =~= seq![digit(d as nat)]);
    text
}

/// Write a number behind the text.
fn append_decimal(text: &mut String, n: u16)
    ensures
        final(text)@ == old(text)@ + decimal(n as nat),
    decreases n,
{
    if n >= 10 {
        append_decimal(text, n / 10);
    }
    text.append(digit_text(n % 10));
    assert(text@ =~= old(text)@ + decimal(n as nat));
}

/// The text by which a client connects to an instance.
pub open spec fn endpoint(addr: Seq<char>, port: u16) -> Seq<char> {
    "ws://"@ + addr + ":"@ + decimal(port as nat)
}

/// How a client gets to an instance.
#[derive(Debug)]
pub enum Route {
    /// It is connected
    Cached,
    /// It has to connect to the endpoint
    Connect(String),
}

/// A client of a cluster, with its connections of type `C` to the instances.
#[verifier::reject_recursive_types(C)]
pub struct Client<C> {
    service: String,
    service_manager: ServiceManager,
    clients: NameMap<C>,
}

impl<C> Client<C> {
    /// The service that the client talks to.
    pub closed spec fn service(&self) -> Seq<char> {
        self.service@
    }

    /// Where the client looks for the instances of the service.
    pub closed spec fn keyspace(&self) -> Seq<char> {
        self.service_manager.keyspace()
    }

    /// The connections, by the ids of the instances.
    pub closed spec fn connections(&self) -> Map<Seq<char>, C> {
        self.clients@
    }

    /// A client of the service of that name. It looks where servers that join a cluster register.
    pub fn new(service: &str) -> (client: Self)
        ensures
            client.service() == service@,
            client.keyspace() == "boxcar-cluster"@,
            client.connections() == Map::<Seq<char>, C>::empty(),
    {
        Client {
            service: service.to_owned(),
            service_manager: cluster_manager(),
            clients: NameMap::new(),
        }
    }

    /// What to ask the store for to find all instances of the service.
    pub fn lookup_key(&self) -> (key: String)
        ensures
            key@ == service_key(self.keyspace(), self.service()),
    {
        self.service_manager.service_key(self.service.as_str())
    }

    /// What to ask the store for to find the instance with the given id.
    pub fn query_key(&self, id: &str) -> (key: String)
        ensures
            key@ == instance_key(self.keyspace(), self.service(), id@),
    {
        self.service_manager.instance_key(self.service.as_str(), id)
    }

    /// The target of a request, of those that have what it asks for, and how to get to it. `pcts`
    /// is the share of the resources of each target that the request would take.
    pub fn call(
        &self,
        targets: &Vec<InstanceRegistration>,
        pcts: &Vec<u8>,
        config: &ClusteredCallConfig,
    ) -> (chosen: (usize, Route))
        requires
            targets@.len() > 0,
            targets@.len() == pcts@.len(),
        ensures
            chosen.0 < targets@.len(),
            config.dense_pack() ==> forall|k: int|
                0 <= k < pcts@.len() && k != chosen.0 ==> #[trigger] comes_before(
                    pcts@,
                    k,
                    chosen.0 as int,
                ),
            !config.dense_pack() ==> forall|k: int|
                0 <= k < pcts@.len() && k != chosen.0 ==> #[trigger] comes_before(
                    pcts@,
                    chosen.0 as int,
                    k,
                ),
            picked(pcts@, config.dense_pack(), chosen.0 as int),
            self.leads_to(targets@[chosen.0 as int], chosen.1),
    {
        let at = config.pick_target(pcts);
        (at, self.route(&targets[at]))
    }

    /// The route gets the client to the instance.
    pub open spec fn leads_to(&self, target: InstanceRegistration, route: Route) -> bool {
        match route {
            Route::Cached => self.connections().contains_key(target.id@),
            Route::Connect(text) => {
                &&& !self.connections().contains_key(target.id@)
                &&& text@ == endpoint(target.addr@, target.port)
            },
        }
    }

    /// How to get to an instance.
    pub fn route(&self, target: &InstanceRegistration) -> (route: Route)
        ensures
            self.leads_to(*target, route),
    {
        if self.connection(target.id.as_str()).is_some() {
            return Route::Cached;
        }
        let mut text = "ws://".to_owned();
        text.append(target.addr.as_str());
        text.append(":");
        append_decimal(&mut text, target.port);
        Route::Connect(text)
    }

    /// The connection to the instance with the given id, if there is one.
    pub fn connection(&self, id: &str) -> (connection: Option<&C>)
        ensures
            match connection {
                Some(connection) => {
                    &&& self.connections().contains_key(id@)
                    &&& *connection == self.connections()[id@]
                },
                None => !self.connections().contains_key(id@),
            },
    {
        self.clients.get(id)
    }

    /// Keep the connection to the instance with the given id.
    pub fn connected(&mut self, id: String, connection: C)
        ensures
            final(self).service() == old(self).service(),
            final(self).keyspace() == old(self).keyspace(),
            final(self).connections() == old(self).connections().insert(id@, connection),
    {
        self.clients.insert(id, connection);
    }
}

/// A client finds the servers that joined the service: what a server registers under is among what
/// the client looks up, and is where the client asks for that very server.
pub proof fn client_finds_service<C>(
    client: Client<C>,
    service: Service,
    instance: RegistrationView,
)
    requires
        client.service() == service@.name,
        client.keyspace() == service@.keyspace,
    ensures
        service_key(client.keyspace(), client.service()).is_prefix_of(
            instance_key(service@.keyspace, service@.name, instance.id),
        ),
        instance_key(client.keyspace(), client.service(), instance.id) == instance_key(
            service@.keyspace,
            service@.name,
            instance.id,
        ),
{
    lookup_covers_instances(client.keyspace(), client.service(), instance.id);
}

} // verus!
