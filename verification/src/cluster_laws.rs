//! What a cluster does, in terms of instances, requests and endpoints.
use crate::cluster::{
    candidates, compare_targets, decimal, digit, endpoint, filter_targets, lease_metadata_updater,
    sort_targets, Client, ClusteredCallConfig, Placed, Refresh, Route, Service,
};
use crate::message::RpcRequest;
use crate::names::NameMap;
use crate::rcm::{affordable, all_affordable};
use crate::registry::{fresh_id, InstanceRegistration, RegistrationHandle, ServiceManager};
use crate::server::Server;
use vstd::prelude::*;
use vstd::string::*;

verus! {

/// The number that digits to the base ten stand for.
pub open spec fn value(digits: Seq<char>) -> int
    decreases digits.len(),
{
    if digits.len() == 0 {
        0
    } else {
        10 * value(digits.drop_last()) + (digits.last() as int - '0' as int)
    }
}

/// A number can be read back from its digits, all of which are digits.
pub proof fn numbers_are_read_back(n: nat)
    ensures
        value(decimal(n)) == n,
        decimal(n).len() > 0,
        forall|i: int|
            0 <= i < decimal(n).len() ==> '0' as int <= #[trigger] decimal(n)[i] as int
                && decimal(n)[i] as int <= '9' as int,
    decreases n,
{
    let last: nat = n % 10;
    assert(digit(last) as int == '0' as int + last);
    if n < 10 {
        assert(decimal(n).drop_last() =~= Seq::<char>::empty());
        assert(decimal(n).last() == digit(n));
        assert(value(Seq::<char>::empty()) == 0);
    } else {
        numbers_are_read_back(n / 10);
        assert(decimal(n).drop_last() =~= decimal(n / 10));
        assert(decimal(n).last() == digit(last));
        assert forall|i: int| 0 <= i < decimal(n).len() implies '0' as int <= #[trigger] decimal(
            n,
        )[i] as int && decimal(n)[i] as int <= '9' as int by {
            if i < decimal(n / 10).len() {
                assert(decimal(n)[i] == decimal(n / 10)[i]);
            }
        }
    }
}

/// Different ports at an address have different endpoints.
pub proof fn endpoints_tell_ports_apart(addr: Seq<char>, port: u16, other: u16)
    ensures
        endpoint(addr, port) == endpoint(addr, other) ==> port == other,
{
    numbers_are_read_back(port as nat);
    numbers_are_read_back(other as nat);
    let front = "ws://"@ + addr + ":"@;
    if endpoint(addr, port) == endpoint(addr, other) {
        assert((front + decimal(port as nat)).skip(front.len() as int) =~= decimal(port as nat));
        assert((front + decimal(other as nat)).skip(front.len() as int) =~= decimal(other as nat));
    }
}

/// The text is a web socket's address at `addr`, with a port that can be read from it.
pub open spec fn leads_to(text: Seq<char>, addr: Seq<char>, port: u16) -> bool {
    &&& text.len() > addr.len() + 6
    &&& text.take(5) == seq!['w', 's', ':', '/', '/']
    &&& text.subrange(5, 5 + addr.len() as int) == addr
    &&& text[5 + addr.len() as int] == ':'
    &&& value(text.skip(6 + addr.len() as int)) == port
}

/// An endpoint is made of the address and the port of the instance.
pub proof fn endpoints_are_addresses(addr: Seq<char>, port: u16)
    ensures
        leads_to(endpoint(addr, port), addr, port),
{
    reveal_strlit("ws://");
    reveal_strlit(":");
    numbers_are_read_back(port as nat);
    let text = endpoint(addr, port);
    assert(text.take(5) =~= seq!['w', 's', ':', '/', '/']);
    assert(text.subrange(5, 5 + addr.len() as int) =~= addr);
    assert(text.skip(6 + addr.len() as int) =~= decimal(port as nat));
}

/// A client uses the connection that it has to an instance. If it has none, it connects to the
/// address and the port that the instance is registered with.
pub proof fn routes_lead_to_the_instance<C>(
    client: &Client<C>,
    target: &InstanceRegistration,
    route: Route,
)
    requires
        call_ensures(Client::<C>::route, (client, target), route),
    ensures
        route is Cached <==> client.connections().contains_key(target.id@),
        route matches Route::Connect(text) ==> leads_to(text@, target.addr@, target.port),
{
    endpoints_are_addresses(target.addr@, target.port);
}

/// A request goes to one of the targets, by a route that leads there. Packed densely, no other
/// target has a higher share taken, else none has a lower one. Of targets with the same share, the
/// one that was found last, or else first, is picked.
pub proof fn requests_go_to_the_right_target<C>(
    client: &Client<C>,
    targets: &Vec<InstanceRegistration>,
    pcts: &Vec<u8>,
    config: &ClusteredCallConfig,
    at: usize,
    route: Route,
    k: int,
)
    requires
        call_ensures(Client::<C>::call, (client, targets, pcts, config), (at, route)),
        targets@.len() == pcts@.len(),
        0 <= k < pcts@.len(),
    ensures
        at < targets@.len(),
        config.dense_pack() ==> pcts@[k] <= pcts@[at as int],
        config.dense_pack() && pcts@[k] == pcts@[at as int] ==> k <= at,
        !config.dense_pack() ==> pcts@[k] >= pcts@[at as int],
        !config.dense_pack() && pcts@[k] == pcts@[at as int] ==> k >= at,
        route is Cached <==> client.connections().contains_key(
            targets@[at as int].id@,
        ),
        route matches Route::Connect(text) ==> leads_to(
            text@,
            targets@[at as int].addr@,
            targets@[at as int].port,
        ),
{
    assert(crate::cluster::picked(pcts@, config.dense_pack(), at as int));
    endpoints_are_addresses(
        targets@[at as int].addr@,
        targets@[at as int].port,
    );
    if k != at {
        if config.dense_pack() {
            assert(crate::cluster::comes_before(pcts@, k, at as int));
        } else {
            assert(crate::cluster::comes_before(pcts@, at as int, k));
        }
    }
}

/// A request can be placed on any targets, if there are any and the share of each is known.
pub proof fn requests_can_be_placed<C>(
    client: &Client<C>,
    targets: &Vec<InstanceRegistration>,
    pcts: &Vec<u8>,
    config: &ClusteredCallConfig,
)
    ensures
        pcts@.len() > 0 ==> call_requires(ClusteredCallConfig::pick_target, (config, pcts)),
        targets@.len() > 0 && targets@.len() == pcts@.len() ==> call_requires(
            Client::<C>::call,
            (client, targets, pcts, config),
        ),
{
}

/// Requests are packed densely by default. The target that is picked then has the highest share
/// taken, else the lowest.
pub proof fn targets_are_picked_by_share(
    fresh: ClusteredCallConfig,
    config: &ClusteredCallConfig,
    pcts: &Vec<u8>,
    target: usize,
    k: int,
)
    requires
        call_ensures(ClusteredCallConfig::new, (), fresh),
        call_ensures(ClusteredCallConfig::pick_target, (config, pcts), target),
        0 <= k < pcts@.len(),
    ensures
        fresh.dense_pack(),
        target < pcts@.len(),
        config.dense_pack() ==> pcts@[k] <= pcts@[target as int],
        !config.dense_pack() ==> pcts@[k] >= pcts@[target as int],
{
    if k != target {
        if config.dense_pack() {
            assert(crate::cluster::comes_before(pcts@, k, target as int));
        } else {
            assert(crate::cluster::comes_before(pcts@, target as int, k));
        }
    }
}

/// Sorting lists every target once, those with lower shares first, and those with the same share in
/// the order in which they were found.
pub proof fn sorting_orders_all_targets(pcts: &Vec<u8>, order: Vec<usize>, i: int, j: int)
    requires
        call_ensures(sort_targets, (pcts,), order),
        0 <= i < j < order@.len(),
    ensures
        order@.len() == pcts@.len(),
        order@[i] < pcts@.len() && order@[j] < pcts@.len(),
        order@[i] != order@[j],
        pcts@[order@[i] as int] <= pcts@[order@[j] as int],
        pcts@[order@[i] as int] == pcts@[order@[j] as int] ==> order@[i] < order@[j],
        forall|k: usize| k < pcts@.len() ==> #[trigger] order@.contains(k),
{
    assert(crate::cluster::comes_before(pcts@, order@[i] as int, order@[j] as int));
}

/// Two shares compare as the numbers do.
pub proof fn shares_compare_as_numbers(a: u8, b: u8, order: Placed)
    requires
        call_ensures(compare_targets, (a, b), order),
    ensures
        order == Placed::Before <==> a < b,
        order == Placed::Level <==> a == b,
        order == Placed::After <==> a > b,
{
}

/// The instance has what the request asks for: enough of each resource.
pub open spec fn suits(v: InstanceRegistration, inner: RpcRequest) -> bool {
    forall|name: Seq<char>| #[trigger]
        inner.resources@.contains_key(name) ==> v.resources@.contains_key(name)
            && inner.resources@[name] <= v.resources@[name]
}

proof fn suits_is_affordable(v: InstanceRegistration, inner: RpcRequest)
    ensures
        all_affordable(v.resources@, inner.resources@) <==> suits(v, inner),
{
    if all_affordable(v.resources@, inner.resources@) {
        assert forall|name: Seq<char>| #[trigger]
            inner.resources@.contains_key(name) implies v.resources@.contains_key(name)
            && inner.resources@[name] <= v.resources@[name] by {
            assert(affordable(v.resources@, name, inner.resources@[name]));
        }
    }
}

/// An instance passes exactly if it has enough of each resource that the request asks for.
pub proof fn instances_pass_if_they_suit(
    v: &InstanceRegistration,
    inner: &RpcRequest,
    matched: bool,
)
    requires
        call_ensures(filter_targets, (v, inner), matched),
    ensures
        matched <==> suits(*v, *inner),
{
    suits_is_affordable(*v, *inner);
}

/// Of no instances there is no candidate. One more instance that is found is one more candidate,
/// and the last one, exactly if it suits the request.
pub proof fn candidates_are_those_that_suit(
    none: Vec<InstanceRegistration>,
    of_none: Vec<InstanceRegistration>,
    found: Vec<InstanceRegistration>,
    of_found: Vec<InstanceRegistration>,
    v: InstanceRegistration,
    more: Vec<InstanceRegistration>,
    of_more: Vec<InstanceRegistration>,
    inner: &RpcRequest,
)
    requires
        none@.len() == 0,
        call_ensures(candidates, (none, inner), of_none),
        call_ensures(candidates, (found, inner), of_found),
        more@ == found@.push(v),
        call_ensures(candidates, (more, inner), of_more),
    ensures
        of_none@.len() == 0,
        suits(v, *inner) ==> of_more@ == of_found@.push(v),
        !suits(v, *inner) ==> of_more@ == of_found@,
{
    reveal(Seq::filter);
    suits_is_affordable(v, *inner);
    assert(more@.drop_last() =~= found@);
    assert(more@.last() == v);
}

/// What a server that joins a cluster is registered as says where it listens, what is free of its
/// resources, and what was said of the service, under an id that was drawn for it.
pub proof fn servers_are_registered_as_they_are<H>(
    service: &Service,
    server: &Server<H>,
    instance: InstanceRegistration,
)
    requires
        call_ensures(Service::serve::<H>, (service, server), instance),
    ensures
        instance.addr@ == server.bind.ip@,
        instance.port == server.bind.port,
        instance.resources@ == server.resource_manager@,
        instance@.meta == service@.metadata,
        instance.proto@ == "tcp"@,
        exists|id: String| #[trigger] call_ensures(fresh_id, (), id) && id@ == instance.id@,
{
}

/// A registration that is active says what is free once it was updated, and says nothing else than
/// before. It is written exactly if that is news. One that is not active is left alone.
pub proof fn registrations_follow_the_pool(
    handle: &mut RegistrationHandle,
    resources: NameMap<usize>,
    step: Refresh,
)
    requires
        call_ensures(lease_metadata_updater, (handle, resources), step),
    ensures
        step == Refresh::Stop <==> !old(handle)@.active,
        step == Refresh::Stop ==> final(handle)@ == old(handle)@,
        step != Refresh::Stop ==> final(handle)@.instance.resources == resources@,
        step == Refresh::Write ==> old(handle)@.instance.resources != resources@,
        step == Refresh::Unchanged ==> old(handle)@.instance.resources == resources@,
        final(handle)@.instance.id == old(handle)@.instance.id,
        final(handle)@.instance.addr == old(handle)@.instance.addr,
        final(handle)@.instance.port == old(handle)@.instance.port,
        final(handle)@.instance.proto == old(handle)@.instance.proto,
        final(handle)@.instance.meta == old(handle)@.instance.meta,
        final(handle)@.path == old(handle)@.path,
        final(handle)@.lease_id == old(handle)@.lease_id,
        final(handle)@.active == old(handle)@.active,
{
}

/// A client of a service asks the store for what begins as the key does that a server of the
/// service is registered under, and asks for that very key to find that very server.
pub proof fn clients_find_servers<C>(
    name: &str,
    service: Service,
    manager: &ServiceManager,
    text: &String,
    instance: InstanceRegistration,
    lease_id: i64,
    handle: RegistrationHandle,
    client: Client<C>,
    front: String,
    id: &str,
    key: String,
)
    requires
        call_ensures(Service::new, (name,), service),
        call_ensures(Service::service_manager, (&service,), manager),
        call_ensures(Service::name, (&service,), text),
        call_ensures(ServiceManager::register, (manager, name, instance, lease_id), handle),
        call_ensures(Client::<C>::new, (name,), client),
        call_ensures(Client::<C>::lookup_key, (&client,), front),
        id@ == instance.id@,
        call_ensures(Client::<C>::query_key, (&client, id), key),
    ensures
        text@ == name@,
        front@.is_prefix_of(handle@.path),
        key@ == handle@.path,
        front@ + id@ == key@,
        forall|i: Seq<char>| !#[trigger] client.connections().contains_key(i),
{
    crate::registry::lookup_covers_instances(client.keyspace(), name@, id@);
}

/// A connection that is kept is there to be used, and the others stay.
pub proof fn connections_are_kept<C>(
    client: &mut Client<C>,
    id: String,
    connection: C,
    later: &Client<C>,
    other: &str,
    found: Option<&C>,
)
    requires
        call_ensures(Client::<C>::connected, (client, id, connection), ()),
        *later == *final(client),
        call_ensures(Client::<C>::connection, (later, other), found),
    ensures
        other@ == id@ ==> found is Some && *(found->0) == connection,
        other@ != id@ ==> (found is Some <==> old(client).connections().contains_key(other@)),
        other@ != id@ && found is Some ==> *(found->0) == old(client).connections()[other@],
        final(client).service() == old(client).service(),
        final(client).keyspace() == old(client).keyspace(),
{
}

/// What is said of a service is what it was told last.
pub proof fn metadata_is_kept(service: Service, metadata: NameMap<String>, told: Service)
    requires
        call_ensures(Service::set_metadata, (service, metadata), told),
    ensures
        told@.name == service@.name,
        told@.keyspace == service@.keyspace,
        forall|n: Seq<char>| #[trigger]
            told@.metadata.contains_key(n) == metadata@.contains_key(n),
        forall|n: Seq<char>| #[trigger]
            metadata@.contains_key(n) ==> told@.metadata[n] == metadata@[n]@,
{
}

} // verus!
