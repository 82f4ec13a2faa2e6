//! What the registry does, in terms of keys, leases and registrations.
use crate::registry::{
    fresh_id, instance_key, service_key, InstanceRegistration, KeepAlive, RegistrationHandle,
    RegistryError, ServiceManager, ServiceManagerConfig, ETCD_LEASE_TTL_SEC,
};
use vstd::prelude::*;

verus! {

/// The key of a service is its keyspace, a slash, its name and a slash.
pub proof fn service_keys_are_paths(keyspace: Seq<char>, service: Seq<char>)
    ensures
        ({
            let key = service_key(keyspace, service);
            let at = keyspace.len() as int;
            &&& key.len() == at + service.len() + 2
            &&& key.take(at) == keyspace
            &&& key[at] == '/'
            &&& key.subrange(at + 1, at + 1 + service.len()) == service
            &&& key[at + 1 + service.len()] == '/'
        }),
{
    reveal_strlit("/");
    let key = service_key(keyspace, service);
    let at = keyspace.len() as int;
    assert(key.take(at) =~= keyspace);
    assert(key.subrange(at + 1, at + 1 + service.len()) =~= service);
}

/// The key of an instance is the key of its service and its id.
pub proof fn instance_keys_are_paths(keyspace: Seq<char>, service: Seq<char>, id: Seq<char>)
    ensures
        ({
            let front = service_key(keyspace, service);
            let key = instance_key(keyspace, service, id);
            &&& key.len() == front.len() + id.len()
            &&& key.take(front.len() as int) == front
            &&& key.skip(front.len() as int) == id
        }),
{
    let front = service_key(keyspace, service);
    let key = instance_key(keyspace, service, id);
    assert(key.take(front.len() as int) =~= front);
    assert(key.skip(front.len() as int) =~= id);
}

/// A manager forms its keys from the keyspace that it was made for.
pub proof fn managers_form_keys(
    keyspace: &str,
    config: ServiceManagerConfig,
    manager: ServiceManager,
    service: &str,
    front: String,
    id: &str,
    key: String,
)
    requires
        call_ensures(ServiceManagerConfig::new, (keyspace,), config),
        call_ensures(ServiceManager::new, (config,), manager),
        call_ensures(ServiceManager::service_key, (&manager, service), front),
        call_ensures(ServiceManager::instance_key, (&manager, service, id), key),
    ensures
        front@.take(keyspace@.len() as int) == keyspace@,
        front@.len() == keyspace@.len() + service@.len() + 2,
        front@.subrange(
            keyspace@.len() as int + 1,
            keyspace@.len() as int + 1 + service@.len(),
        ) == service@,
        front@[keyspace@.len() as int] == '/',
        front@[front@.len() - 1] == '/',
        key@ == front@ + id@,
{
    service_keys_are_paths(keyspace@, service@);
}

/// A registered instance is what was registered, under its own key and the lease that was granted,
/// and is active.
pub proof fn instances_are_registered(
    manager: &ServiceManager,
    service: &str,
    instance: InstanceRegistration,
    lease_id: i64,
    handle: RegistrationHandle,
    id: &str,
    key: String,
    path: &String,
    lease: i64,
    active: bool,
    shown: InstanceRegistration,
)
    requires
        call_ensures(ServiceManager::register, (manager, service, instance, lease_id), handle),
        id@ == instance.id@,
        call_ensures(ServiceManager::instance_key, (manager, service, id), key),
        call_ensures(RegistrationHandle::path, (&handle,), path),
        call_ensures(RegistrationHandle::lease_id, (&handle,), lease),
        call_ensures(RegistrationHandle::active, (&handle,), active),
        call_ensures(RegistrationHandle::peak, (&handle,), shown),
    ensures
        path@ == key@,
        lease == lease_id,
        active,
        shown@ == instance@,
{
}

/// A new instance is local, has an id that was drawn for it, and says nothing else.
pub proof fn new_instances_have_their_own_id(instance: InstanceRegistration, name: Seq<char>)
    requires
        call_ensures(InstanceRegistration::new, (), instance),
    ensures
        exists|id: String| #[trigger] call_ensures(fresh_id, (), id) && id@ == instance.id@,
        instance.addr@ == "127.0.0.1"@,
        instance.port == 0,
        instance.proto@ == "tcp"@,
        !instance@.meta.contains_key(name),
        !instance.resources@.contains_key(name),
{
}

/// A handle says what it was made for.
pub proof fn handles_are_made(
    lease_id: i64,
    path: String,
    instance: InstanceRegistration,
    handle: RegistrationHandle,
)
    requires
        call_ensures(RegistrationHandle::new, (lease_id, path, instance), handle),
    ensures
        handle@.path == path@,
        handle@.lease_id == lease_id,
        handle@.instance == instance@,
        handle@.active,
{
}

/// An update is kept, and is told to be a change exactly if it says something else than before.
pub proof fn updates_are_kept(
    handle: &mut RegistrationHandle,
    instance: InstanceRegistration,
    changed: bool,
)
    requires
        call_ensures(RegistrationHandle::update, (handle, instance), changed),
    ensures
        changed <==> old(handle)@.instance != instance@,
        final(handle)@.instance == instance@,
        final(handle)@.path == old(handle)@.path,
        final(handle)@.lease_id == old(handle)@.lease_id,
        final(handle)@.active == old(handle)@.active,
{
}

/// Two registrations are the same exactly if they say the same.
pub proof fn registrations_are_compared(
    a: &InstanceRegistration,
    b: &InstanceRegistration,
    yes: bool,
)
    requires
        call_ensures(InstanceRegistration::same, (a, b), yes),
    ensures
        yes <==> a@ == b@,
{
}

/// The lease of an active registration is kept alive with at least two requests in the time that it
/// lasts, and that of a deregistered one is not.
pub proof fn leases_are_kept_alive_while_active(
    handle: &RegistrationHandle,
    step: KeepAlive,
    ended: &mut RegistrationHandle,
    later: &RegistrationHandle,
    last: KeepAlive,
)
    requires
        call_ensures(RegistrationHandle::keep_alive, (handle,), step),
        call_ensures(RegistrationHandle::deregister, (ended,), ()),
        *later == *final(ended),
        call_ensures(RegistrationHandle::keep_alive, (later,), last),
    ensures
        step == KeepAlive::Stop <==> !handle@.active,
        step matches KeepAlive::PingAndSleep(seconds) ==> 0 < seconds && 2 * seconds
            == ETCD_LEASE_TTL_SEC,
        last == KeepAlive::Stop,
        final(ended)@.instance == old(ended)@.instance,
        final(ended)@.path == old(ended)@.path,
        final(ended)@.lease_id == old(ended)@.lease_id,
{
}

/// A query gives what the store has under the key, and is an error exactly if it has nothing.
pub proof fn queries_give_the_entry(
    entries: Vec<Vec<u8>>,
    entry: Result<Vec<u8>, RegistryError>,
)
    requires
        call_ensures(ServiceManager::query, (entries,), entry),
    ensures
        entry is Ok <==> entries@.len() > 0,
        entry is Ok ==> entry->Ok_0 == entries@[0],
        entry is Err ==> entry->Err_0 == RegistryError::NotFound,
{
}

} // verus!
