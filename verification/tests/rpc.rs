use boxcar::client::{Client, ClientError, Delivery};
use boxcar::executor::{BoxcarExecutor, ExecuteError};
use boxcar::message::{BoxcarMessage, Envelope, HandlerTrait, RpcRequest, RpcResult};
use boxcar::names::NameMap;
use boxcar::rcm::{ResourceError, ResourceManager};
use boxcar::server::{
    answer_in, handle_ping, handle_rpc_req_result, handle_sub, handle_unsub, is_answerable,
    message_handler, reply_in, Answer, BindAddr, Reply, Server, Subscriptions,
};

/// Runs the methods whose names begin with its own.
struct Methods {
    prefix: String,
}

impl HandlerTrait for Methods {
    fn contains(&self, method: &str) -> bool {
        method.starts_with(&self.prefix)
    }

    fn package(&self) -> &str {
        &self.prefix
    }
}

fn methods(prefix: &str) -> Methods {
    Methods { prefix: prefix.to_string() }
}

fn request(method: &str, subscribe: bool, resources: &[(&str, usize)]) -> RpcRequest {
    let mut map = NameMap::new();
    for (name, amount) in resources {
        map.insert(name.to_string(), *amount);
    }
    RpcRequest { method: method.to_string(), body: vec![1, 2, 3], subscribe, resources: map }
}

/// A server with a connection.
struct Setup {
    server: Server<Methods>,
    subscriptions: Subscriptions,
}

impl Setup {
    fn new() -> Setup {
        let mut executor = BoxcarExecutor::new();
        executor.add_handler(methods("foo"));
        let mut rcm = ResourceManager::new();
        rcm.add("test1", 1024);
        rcm.add("test2", 512);
        Setup {
            server: Server::new().executor(executor).resource_manager(rcm),
            subscriptions: Subscriptions::new(),
        }
    }

    fn handle(&mut self, c_slot: u16, message: BoxcarMessage) -> Reply {
        message_handler(
            Envelope { c_slot, message },
            &mut self.server.executor,
            &mut self.subscriptions,
            &mut self.server.resource_manager,
        )
        .unwrap()
    }

    fn free(&self, name: &str) -> usize {
        *self.server.resource_manager.peak().get(name).unwrap()
    }
}

fn slot_of(reply: &Reply) -> u16 {
    match reply.envelope.message {
        BoxcarMessage::RpcReqSlot(s_slot) => s_slot,
        _ => panic!("unexpected message {:?}", reply.envelope.message),
    }
}

fn error_of(message: &BoxcarMessage) -> &str {
    match message {
        BoxcarMessage::ServerError(text) => text,
        _ => panic!("unexpected message {:?}", message),
    }
}

fn changed(message: &BoxcarMessage) -> bool {
    match message {
        BoxcarMessage::SubOpFin(changed) => *changed,
        _ => panic!("unexpected message {:?}", message),
    }
}

fn success_of(message: &BoxcarMessage) -> (u16, Vec<u8>) {
    match message {
        BoxcarMessage::RpcRslt((s_slot, RpcResult::Success(bytes))) => (*s_slot, bytes.clone()),
        _ => panic!("unexpected message {:?}", message),
    }
}

#[test]
fn ping_is_answered_with_pong() {
    let mut setup = Setup::new();
    let reply = setup.handle(0, BoxcarMessage::Ping(2));
    assert_eq!(reply.envelope.c_slot, 0);
    assert!(matches!(reply.envelope.message, BoxcarMessage::Pong(2)));
    assert!(reply.launch.is_none());
    assert!(matches!(handle_ping(255), BoxcarMessage::Pong(255)));
}

#[test]
fn pong_is_not_supported() {
    let mut setup = Setup::new();
    let reply = setup.handle(6, BoxcarMessage::Pong(2));
    assert_eq!(reply.envelope.c_slot, 6);
    assert_eq!(error_of(&reply.envelope.message), "unsupported message");
}

#[test]
fn some_messages_have_no_answer() {
    assert!(is_answerable(&BoxcarMessage::RpcReq(request("foo", false, &[]))));
    assert!(is_answerable(&BoxcarMessage::RpcReqRslt(1)));
    assert!(is_answerable(&BoxcarMessage::Sub(vec![])));
    assert!(is_answerable(&BoxcarMessage::UnSub(vec![])));
    assert!(is_answerable(&BoxcarMessage::Ping(1)));
    assert!(is_answerable(&BoxcarMessage::Pong(1)));
    assert!(!is_answerable(&BoxcarMessage::RpcReqSlot(1)));
    assert!(!is_answerable(&BoxcarMessage::RpcRslt((1, RpcResult::Pending))));
    assert!(!is_answerable(&BoxcarMessage::ServerError("".to_string())));
    assert!(is_answerable(&BoxcarMessage::Hangup));
    assert!(!is_answerable(&BoxcarMessage::SubOpFin(true)));
    assert!(!is_answerable(&BoxcarMessage::ResourceError(ResourceError::Unknown)));
}

#[test]
fn request_is_scheduled() {
    let mut setup = Setup::new();
    let reply = setup.handle(7, BoxcarMessage::RpcReq(request("foo", true, &[("test1", 512)])));
    let s_slot = slot_of(&reply);
    assert_eq!(reply.envelope.c_slot, 7);

    let launch = reply.launch.unwrap();
    assert_eq!(launch.s_slot, s_slot);
    assert_eq!(launch.handler, 0);
    assert_eq!(launch.method, "foo");
    assert_eq!(launch.body, vec![1, 2, 3]);

    // the resources have been consumed
    assert_eq!(setup.free("test1"), 512);
    assert_eq!(setup.free("test2"), 512);

    let (slot, result) = launch.bus.send(RpcResult::Success(vec![]));
    assert_eq!(slot, s_slot);
    let update = setup.subscriptions.relay(slot, result).unwrap();
    assert_eq!(update.c_slot, 7);
    assert_eq!(success_of(&update.message), (s_slot, vec![]));

    // and are returned at the end
    assert!(setup.server.can_finish(s_slot));
    setup.server.finish_task(s_slot);
    assert_eq!(setup.free("test1"), 1024);
    // once
    setup.server.finish_task(s_slot);
    assert_eq!(setup.free("test1"), 1024);
}

/// Answer a request for half of `test1` in the given slot.
fn answer(setup: &mut Setup, slot: Option<u16>, found: Option<usize>) -> Option<Answer> {
    let request = request("foo", true, &[("test1", 512)]);
    let claims = setup.server.resource_manager.consume_all(&request.resources).unwrap();
    assert_eq!(setup.free("test1"), 512);
    answer_in(
        slot,
        found,
        request,
        &mut setup.server.executor,
        claims,
        &mut setup.server.resource_manager,
    )
}

#[test]
fn request_is_answered_in_its_slot() {
    let mut setup = Setup::new();
    let s_slot = setup.server.executor.assign_slot().unwrap();
    let answer = answer(&mut setup, Some(s_slot), Some(0)).unwrap();
    assert!(matches!(answer.message, BoxcarMessage::RpcReqSlot(slot) if slot == s_slot));
    let launch = answer.launch.as_ref().unwrap();
    assert_eq!(launch.s_slot, s_slot);
    assert_eq!(launch.handler, 0);
    assert_eq!(launch.method, "foo");
    assert_eq!(launch.body, vec![1, 2, 3]);
    assert_eq!(launch.bus.send(RpcResult::Pending).0, s_slot);
    assert_eq!(setup.free("test1"), 512);
    assert!(setup.server.executor.has_task(s_slot));

    let reply = reply_in(Some(answer), 7, true, &mut setup.subscriptions).unwrap();
    assert_eq!(reply.envelope.c_slot, 7);
    assert_eq!(slot_of(&reply), s_slot);
    assert_eq!(reply.launch.unwrap().s_slot, s_slot);
    assert_eq!(setup.subscriptions.relay(s_slot, RpcResult::Pending).unwrap().c_slot, 7);
}

#[test]
fn request_is_refused_without_handler_or_slot() {
    let mut setup = Setup::new();
    let s_slot = setup.server.executor.assign_slot().unwrap();
    let refused = answer(&mut setup, Some(s_slot), None).unwrap();
    assert_eq!(error_of(&refused.message), "unable to schedule request. no such handler");
    assert!(refused.launch.is_none());
    assert_eq!(setup.free("test1"), 1024);
    assert!(!setup.server.executor.has_task(s_slot));
    let reply = reply_in(Some(refused), 7, true, &mut setup.subscriptions).unwrap();
    assert_eq!(reply.envelope.c_slot, 7);
    assert!(setup.subscriptions.relay(s_slot, RpcResult::Pending).is_none());

    assert!(answer(&mut setup, None, None).is_none());
    assert_eq!(setup.free("test1"), 1024);
    assert!(reply_in(None, 7, true, &mut setup.subscriptions).is_none());
}

#[test]
fn reply_subscribes_only_on_request() {
    let mut setup = Setup::new();
    let s_slot = setup.server.executor.assign_slot().unwrap();
    let answer = answer(&mut setup, Some(s_slot), Some(0));
    assert!(reply_in(answer, 7, false, &mut setup.subscriptions).is_some());
    assert!(setup.subscriptions.relay(s_slot, RpcResult::Pending).is_none());
}

#[test]
fn tasks_are_launched_in_the_slot_that_was_found() {
    let mut executor: BoxcarExecutor<Methods> = BoxcarExecutor::new();
    executor.add_handler(methods("foo"));
    let refused = executor.execute_in(None, None, request("foo", false, &[]), vec![]);
    assert_eq!(refused.unwrap_err().error, ExecuteError::NoSlot);
    let (slot, found) = executor.place(&"foo".to_string());
    assert_eq!(found, Some(0));
    let launch = executor.execute_in(slot, found, request("foo", false, &[]), vec![]).unwrap();
    assert_eq!(Some(launch.s_slot), slot);
    let (slot, found) = executor.place(&"bar".to_string());
    assert_eq!(found, None);
    let refused = executor.execute_in(slot, found, request("bar", false, &[]), vec![]);
    assert_eq!(refused.unwrap_err().error, ExecuteError::NoHandler);
}

#[test]
fn unsubscribed_request_gets_no_updates() {
    let mut setup = Setup::new();
    let reply = setup.handle(7, BoxcarMessage::RpcReq(request("foo", false, &[])));
    assert!(setup.subscriptions.relay(slot_of(&reply), RpcResult::Pending).is_none());
}

#[test]
fn request_without_handler_is_refused() {
    let mut setup = Setup::new();
    let reply = setup.handle(7, BoxcarMessage::RpcReq(request("bar", true, &[("test1", 512)])));
    assert_eq!(
        error_of(&reply.envelope.message),
        "unable to schedule request. no such handler"
    );
    assert!(reply.launch.is_none());
    assert_eq!(setup.free("test1"), 1024);
}

#[test]
fn request_without_resources_is_refused() {
    let mut setup = Setup::new();
    let wants = [("test1", 512), ("test2", 513)];
    let reply = setup.handle(7, BoxcarMessage::RpcReq(request("foo", true, &wants)));
    assert!(matches!(
        reply.envelope.message,
        BoxcarMessage::ResourceError(ResourceError::NotEnough(513, 512))
    ));
    assert!(reply.launch.is_none());
    assert_eq!(setup.free("test1"), 1024);
    assert_eq!(setup.free("test2"), 512);

    let reply = setup.handle(7, BoxcarMessage::RpcReq(request("foo", true, &[("test3", 0)])));
    assert!(matches!(
        reply.envelope.message,
        BoxcarMessage::ResourceError(ResourceError::Unknown)
    ));
}

#[test]
fn tasks_share_the_pool() {
    let mut setup = Setup::new();
    let first = setup.handle(1, BoxcarMessage::RpcReq(request("foo", false, &[("test1", 1000)])));
    let second = setup.handle(1, BoxcarMessage::RpcReq(request("foo", false, &[("test1", 24)])));
    let third = setup.handle(1, BoxcarMessage::RpcReq(request("foo", false, &[("test1", 1)])));
    assert!(matches!(
        third.envelope.message,
        BoxcarMessage::ResourceError(ResourceError::NotEnough(1, 0))
    ));
    assert!(setup.server.can_finish(slot_of(&first)));
    assert!(setup.server.can_finish(slot_of(&second)));
    setup.server.finish_task(slot_of(&first));
    assert_eq!(setup.free("test1"), 1000);
    setup.server.finish_task(slot_of(&second));
    assert_eq!(setup.free("test1"), 1024);
}

#[test]
fn task_can_be_kept_from_finishing() {
    let mut setup = Setup::new();
    let reply = setup.handle(1, BoxcarMessage::RpcReq(request("foo", false, &[("test1", 2)])));
    let s_slot = slot_of(&reply);
    setup.server.resource_manager.add("test1", usize::MAX - 1022);
    assert!(!setup.server.can_finish(s_slot));
    setup.server.resource_manager.remove("test1", 2).unwrap();
    assert!(setup.server.can_finish(s_slot));
    setup.server.finish_task(s_slot);
    assert_eq!(setup.free("test1"), usize::MAX);
}

#[test]
fn results_can_be_asked_for_later() {
    let mut setup = Setup::new();
    let reply = setup.handle(1, BoxcarMessage::RpcReq(request("foo", false, &[])));
    let s_slot = slot_of(&reply);

    let answer = setup.handle(2, BoxcarMessage::RpcReqRslt(s_slot));
    assert_eq!(answer.envelope.c_slot, 2);
    match answer.envelope.message {
        BoxcarMessage::RpcRslt((slot, RpcResult::Pending)) => assert_eq!(slot, s_slot),
        _ => panic!("unexpected message"),
    }

    assert!(setup.server.executor.record(s_slot, RpcResult::Failure(vec![4])));
    assert!(setup.server.executor.record(s_slot, RpcResult::Success(vec![5])));
    setup.server.finish_task(s_slot);
    setup.handle(1, BoxcarMessage::RpcReq(request("foo", false, &[])));
    let answer = setup.handle(3, BoxcarMessage::RpcReqRslt(s_slot));
    assert_eq!(success_of(&answer.envelope.message), (s_slot, vec![5]));
}

#[test]
fn unknown_slots_have_no_result() {
    let executor: BoxcarExecutor<Methods> = BoxcarExecutor::new();
    assert_eq!(error_of(&handle_rpc_req_result(3, &executor)), "no such s_slot");
    let mut setup = Setup::new();
    assert!(!setup.server.executor.record(3, RpcResult::Pending));
    assert!(setup.server.executor.result(3).is_none());
}

#[test]
fn subscriptions_are_added_and_taken_out() {
    let mut subscriptions = Subscriptions::new();
    assert!(changed(&handle_sub(&vec![4, 5, 4], &mut subscriptions, 9)));
    assert!(!changed(&handle_sub(&vec![4], &mut subscriptions, 10)));
    assert!(!changed(&handle_sub(&vec![], &mut subscriptions, 10)));
    assert!(changed(&handle_sub(&vec![4, 6], &mut subscriptions, 10)));
    // a slot keeps the communication slot that it was subscribed with first
    assert_eq!(subscriptions.relay(4, RpcResult::Pending).unwrap().c_slot, 9);
    assert_eq!(subscriptions.relay(6, RpcResult::Pending).unwrap().c_slot, 10);
    assert!(subscriptions.relay(7, RpcResult::Pending).is_none());

    assert!(changed(&handle_unsub(&vec![4, 7], &mut subscriptions)));
    assert!(!changed(&handle_unsub(&vec![4, 7], &mut subscriptions)));
    assert!(!changed(&handle_unsub(&vec![], &mut subscriptions)));
    assert!(subscriptions.relay(4, RpcResult::Pending).is_none());
    assert_eq!(subscriptions.relay(5, RpcResult::Pending).unwrap().c_slot, 9);

    subscriptions.insert(5, 11);
    assert_eq!(subscriptions.relay(5, RpcResult::Pending).unwrap().c_slot, 11);
}

#[test]
fn unsub_undoes_sub() {
    let mut setup = Setup::new();
    setup.handle(3, BoxcarMessage::Sub(vec![1, 2]));
    assert_eq!(setup.subscriptions.relay(1, RpcResult::Pending).unwrap().c_slot, 3);
    assert!(changed(&setup.handle(3, BoxcarMessage::UnSub(vec![2, 1])).envelope.message));
    assert!(setup.subscriptions.relay(1, RpcResult::Pending).is_none());
    assert!(setup.subscriptions.relay(2, RpcResult::Pending).is_none());
}

#[test]
fn subscription_is_answered_with_the_last_result() {
    let mut setup = Setup::new();
    let first = slot_of(&setup.handle(1, BoxcarMessage::RpcReq(request("foo", false, &[]))));
    let second = slot_of(&setup.handle(1, BoxcarMessage::RpcReq(request("foo", false, &[]))));
    setup.server.executor.record(first, RpcResult::Success(vec![5]));

    let reply = setup.handle(3, BoxcarMessage::Sub(vec![first]));
    assert_eq!(reply.envelope.c_slot, 3);
    assert!(reply.launch.is_none());
    assert_eq!(success_of(&reply.envelope.message), (first, vec![5]));
    // again, with another task behind it
    let reply = setup.handle(4, BoxcarMessage::Sub(vec![first, second]));
    assert_eq!(success_of(&reply.envelope.message), (first, vec![5]));
    assert_eq!(setup.subscriptions.relay(first, RpcResult::Pending).unwrap().c_slot, 3);
    assert_eq!(setup.subscriptions.relay(second, RpcResult::Pending).unwrap().c_slot, 4);
}

#[test]
fn subscription_to_nothing_is_an_error() {
    let mut setup = Setup::new();
    let s_slot = slot_of(&setup.handle(1, BoxcarMessage::RpcReq(request("foo", false, &[]))));
    let other = s_slot.wrapping_add(1);
    let reply = setup.handle(3, BoxcarMessage::Sub(vec![s_slot, other]));
    assert_eq!(error_of(&reply.envelope.message), "no such s_slot");
    let reply = setup.handle(3, BoxcarMessage::Sub(vec![]));
    assert_eq!(error_of(&reply.envelope.message), "no such s_slot");
    // the client is subscribed all the same
    assert_eq!(setup.subscriptions.relay(other, RpcResult::Pending).unwrap().c_slot, 3);
}

#[test]
fn hangup_ends_all_subscriptions() {
    let mut setup = Setup::new();
    setup.handle(3, BoxcarMessage::Sub(vec![1, 2]));
    let reply = setup.handle(0, BoxcarMessage::Hangup);
    assert_eq!(reply.envelope.c_slot, 0);
    assert!(matches!(reply.envelope.message, BoxcarMessage::Hangup));
    assert!(setup.subscriptions.relay(1, RpcResult::Pending).is_none());
    assert!(setup.subscriptions.relay(2, RpcResult::Pending).is_none());
}

#[test]
fn handlers_are_asked_in_order() {
    let mut executor = BoxcarExecutor::default();
    assert_eq!(executor.num_handlers(), 0);
    executor.add_handler(methods("foo"));
    executor.add_handler(methods("fo"));
    executor.add_handler(methods("bar"));
    assert_eq!(executor.num_handlers(), 3);
    for i in 0..10 {
        let mut other: BoxcarExecutor<Methods> = BoxcarExecutor::new();
        for _ in 0..i {
            other.add_handler(methods("foo"));
        }
        assert_eq!(other.num_handlers(), i);
    }
    assert_eq!(executor.find_handler(&"foo".to_string()), Some(0));
    assert_eq!(executor.find_handler(&"fox".to_string()), Some(1));
    assert_eq!(executor.find_handler(&"bars".to_string()), Some(2));
    assert_eq!(executor.find_handler(&"zoo".to_string()), None);
    assert_eq!(executor.handler(2).unwrap().package(), "bar");
    assert!(executor.handler(3).is_none());

    let launch = executor.execute_task(request("bar", false, &[]), vec![]).unwrap();
    assert_eq!(launch.handler, 2);
    let refused = executor.execute_task(request("zoo", false, &[]), vec![]).unwrap_err();
    assert_eq!(refused.error, ExecuteError::NoHandler);
}

#[test]
fn refused_request_gives_its_claims_back() {
    let mut rcm = ResourceManager::new();
    rcm.add("test1", 10);
    let claim = rcm.consume("test1", 4).unwrap();
    let mut executor: BoxcarExecutor<Methods> = BoxcarExecutor::new();
    let refused = executor.execute_task(request("foo", false, &[]), vec![claim]).unwrap_err();
    assert_eq!(refused.claims.len(), 1);
    assert_eq!(refused.claims[0].read(), 4);
}

#[test]
fn slots_are_never_reused() {
    let mut executor: BoxcarExecutor<Methods> = BoxcarExecutor::new();
    executor.add_handler(methods("foo"));
    let mut slots: Vec<u16> = Vec::new();
    for i in 0..300 {
        let slot = if i % 2 == 0 {
            executor.assign_slot().unwrap()
        } else {
            executor.execute_task(request("foo", false, &[]), vec![]).unwrap().s_slot
        };
        assert!(!slots.contains(&slot));
        assert!(executor.finish_task(slot).is_empty());
        slots.push(slot);
    }
}

#[test]
fn server_listens_locally_by_default() {
    let server: Server<Methods> = Server::default();
    assert_eq!(server.bind.ip, "127.0.0.1");
    assert_eq!(server.bind.port, 9930);
    assert_eq!(server.executor.num_handlers(), 0);
    assert_eq!(server.resource_manager.peak().len(), 0);
    let server = server.bind(BindAddr { ip: "::1".to_string(), port: 1 });
    assert_eq!(server.bind.ip, "::1");
    assert_eq!(server.bind.port, 1);
}

#[test]
fn call_round_trip() {
    let mut setup = Setup::new();
    let mut client = Client::new();
    let call = client.call(request("foo", true, &[])).unwrap();
    let c_slot = call.c_slot;
    assert_ne!(c_slot, 0);
    assert!(client.expects(c_slot));
    assert!(client.call_reply(c_slot).is_none());

    let reply = setup.handle(c_slot, call.message);
    let launch = reply.launch.unwrap();
    assert_eq!(
        client.inbox_handler(reply.envelope.c_slot, reply.envelope.message),
        Delivery::Queued
    );
    let s_slot = client.call_reply(c_slot).unwrap().unwrap();
    assert_eq!(s_slot, launch.s_slot);
    assert_eq!(client.get_c_slot(s_slot), Some(c_slot));
    assert!(client.try_recv(s_slot).unwrap().is_none());

    let (slot, result) = launch.bus.send(RpcResult::Success(vec![]));
    let update = setup.subscriptions.relay(slot, result).unwrap();
    assert_eq!(client.inbox_handler(update.c_slot, update.message), Delivery::Queued);
    let message = client.try_recv(s_slot).unwrap().unwrap();
    assert_eq!(success_of(&message), (s_slot, vec![]));
    assert!(client.try_recv(s_slot).unwrap().is_none());
}

#[test]
fn reconnect_round_trip() {
    let mut setup = Setup::new();
    let mut first = Client::new();
    let call = first.call(request("foo", true, &[])).unwrap();
    let c_slot = call.c_slot;
    let reply = setup.handle(c_slot, call.message);
    first.inbox_handler(c_slot, reply.envelope.message);
    let s_slot = first.call_reply(c_slot).unwrap().unwrap();

    // the first client leaves
    let farewell = first.close();
    let goodbye = farewell.unsub.unwrap();
    assert!(changed(&setup.handle(goodbye.c_slot, goodbye.message).envelope.message));
    let notice = farewell.hangup;
    assert_eq!(notice.c_slot, 0);
    assert!(matches!(
        setup.handle(notice.c_slot, notice.message).envelope.message,
        BoxcarMessage::Hangup
    ));
    assert!(setup.subscriptions.relay(s_slot, RpcResult::Pending).is_none());

    // the task goes on
    assert!(setup.server.executor.record(s_slot, RpcResult::Success(vec![1])));

    // another client comes
    setup.subscriptions = Subscriptions::new();
    let mut second = Client::new();
    assert!(matches!(second.try_recv(s_slot), Err(ClientError::NotSubscribed)));
    assert!(matches!(second.refresh(s_slot), Err(ClientError::NotSubscribed)));
    for question in [second.subscribe(s_slot).unwrap(), second.refresh(s_slot).unwrap()] {
        let reply = setup.handle(question.c_slot, question.message).envelope;
        assert_eq!(second.inbox_handler(reply.c_slot, reply.message), Delivery::Queued);
    }
    let update = setup.subscriptions.relay(s_slot, RpcResult::Success(vec![2])).unwrap();
    second.inbox_handler(update.c_slot, update.message);

    assert_eq!(success_of(&second.try_recv(s_slot).unwrap().unwrap()), (s_slot, vec![1]));
    assert_eq!(success_of(&second.try_recv(s_slot).unwrap().unwrap()), (s_slot, vec![1]));
    assert_eq!(success_of(&second.try_recv(s_slot).unwrap().unwrap()), (s_slot, vec![2]));
    assert!(second.try_recv(s_slot).unwrap().is_none());
}

#[test]
fn client_errors() {
    let mut client = Client::new();
    assert!(matches!(client.call_reply(5), Some(Err(ClientError::NoSuchSlot))));
    assert!(matches!(client.try_recv(5), Err(ClientError::NotSubscribed)));
    assert!(matches!(client.unsubscribe(5), Err(ClientError::NotSubscribed)));
    assert_eq!(client.inbox_handler(5, BoxcarMessage::Pong(1)), Delivery::NoSlot);

    let c_slot = client.send(BoxcarMessage::Ping(1)).unwrap().c_slot;
    client.inbox_handler(c_slot, BoxcarMessage::ServerError("no such handler".to_string()));
    client.inbox_handler(c_slot, BoxcarMessage::Pong(1));
    match client.call_reply(c_slot) {
        Some(Err(ClientError::Server(text))) => assert_eq!(text, "no such handler"),
        _ => panic!("the server refused"),
    }
    assert!(matches!(client.call_reply(c_slot), Some(Err(ClientError::Unexpected))));
    assert!(client.call_reply(c_slot).is_none());
    assert!(matches!(
        client.accept_reply(c_slot, BoxcarMessage::SubOpFin(true)),
        Err(ClientError::Unexpected)
    ));
}

#[test]
fn messages_keep_their_order_and_their_slots() {
    let mut client = Client::new();
    assert!(client.take_slot(1));
    assert!(client.take_slot(2));
    assert_eq!(client.accept_reply(1, BoxcarMessage::RpcReqSlot(11)).unwrap(), 11);
    assert_eq!(client.accept_reply(2, BoxcarMessage::RpcReqSlot(12)).unwrap(), 12);
    for i in 0..5 {
        assert_eq!(client.deliver(1, BoxcarMessage::Ping(i)), Delivery::Queued);
        assert_eq!(client.deliver(2, BoxcarMessage::Pong(i)), Delivery::Queued);
    }
    for i in 0..5 {
        match client.try_recv(11).unwrap().unwrap() {
            BoxcarMessage::Ping(num) => assert_eq!(num, i),
            _ => panic!("unexpected message"),
        }
    }
    assert!(client.try_recv(11).unwrap().is_none());
    assert!(matches!(client.try_recv(12), Ok(Some(BoxcarMessage::Pong(0)))));
}

#[test]
fn client_slots_run_out() {
    let mut client = Client::new();
    assert!(!client.take_slot(0));
    for slot in 1..=u16::MAX {
        assert!(client.take_slot(slot));
    }
    assert!(!client.take_slot(77));
    assert_eq!(client.allocate_slot(), None);
    assert!(client.send(BoxcarMessage::Ping(1)).is_none());
    assert!(client.call(request("foo", false, &[])).is_none());
    assert!(client.subscribe(4).is_none());
    let farewell = client.close();
    assert!(farewell.unsub.is_none());
    assert!(matches!(farewell.hangup.message, BoxcarMessage::Hangup));
}

#[test]
fn messages_are_addressed_from_their_slot() {
    let envelope = Client::address(Some(7), BoxcarMessage::Ping(3)).unwrap();
    assert_eq!(envelope.c_slot, 7);
    assert!(matches!(envelope.message, BoxcarMessage::Ping(3)));
    assert!(Client::address(None, BoxcarMessage::Ping(3)).is_none());
}

#[test]
fn first_vacant_draw_is_handed_out() {
    let mut client = Client::new();
    let draws: Vec<u16> = vec![0, 6, 6, 8];
    assert_eq!(client.allocate_from(|i| draws[i as usize]), Some(6));
    assert_eq!(client.allocate_from(|i| draws[i as usize]), Some(8));
    assert_eq!(client.allocate_from(|i| if i == 1025 { 9 } else { 0 }), Some(9));
    assert_eq!(client.allocate_from(|_| 0), None);
    assert!(client.expects(6) && client.expects(8) && client.expects(9));
    assert!(!client.expects(0));
}

#[test]
fn client_closes_from_the_slot_that_was_found() {
    let mut client = Client::new();
    assert!(client.take_slot(9));
    client.subscribe_from(4, Some(9)).unwrap();
    client.subscribe_from(5, Some(9)).unwrap();
    let farewell = client.close_from(Some(3));
    let unsub = farewell.unsub.unwrap();
    assert_eq!(unsub.c_slot, 3);
    match unsub.message {
        BoxcarMessage::UnSub(mut slots) => {
            slots.sort();
            assert_eq!(slots, vec![4, 5]);
        }
        _ => panic!("unexpected message"),
    }
    assert_eq!(farewell.hangup.c_slot, 0);
    assert!(matches!(farewell.hangup.message, BoxcarMessage::Hangup));

    let farewell = Client::new().close_from(None);
    assert!(farewell.unsub.is_none());
    assert!(matches!(farewell.hangup.message, BoxcarMessage::Hangup));
}

#[test]
fn client_slots_differ() {
    let mut client = Client::new();
    let mut slots: Vec<u16> = Vec::new();
    for _ in 0..300 {
        let slot = client.allocate_slot().unwrap();
        assert!(slot != 0 && !slots.contains(&slot));
        slots.push(slot);
    }
}

#[test]
fn tasks_are_followed_from_the_slot_that_was_found() {
    let mut client = Client::new();
    assert!(client.subscribe_from(4, None).is_none());
    assert_eq!(client.get_c_slot(4), None);
    assert!(client.take_slot(9));
    let envelope = client.subscribe_from(4, Some(9)).unwrap();
    assert_eq!(envelope.c_slot, 9);
    match envelope.message {
        BoxcarMessage::Sub(slots) => assert_eq!(slots, vec![4]),
        _ => panic!("unexpected message"),
    }
    assert_eq!(client.get_c_slot(4), Some(9));
}

#[test]
fn following_a_task_twice_uses_one_slot() {
    let mut client = Client::new();
    let first = client.subscribe(4).unwrap();
    let second = client.subscribe(4).unwrap();
    assert_eq!(first.c_slot, second.c_slot);
    match second.message {
        BoxcarMessage::Sub(slots) => assert_eq!(slots, vec![4]),
        _ => panic!("unexpected message"),
    }
    let other = client.subscribe(5).unwrap();
    assert_ne!(other.c_slot, first.c_slot);

    let gone = client.unsubscribe(4).unwrap();
    assert_eq!(gone.c_slot, first.c_slot);
    match gone.message {
        BoxcarMessage::UnSub(slots) => assert_eq!(slots, vec![4]),
        _ => panic!("unexpected message"),
    }
    assert_eq!(client.get_c_slot(4), None);
    assert_eq!(client.get_c_slot(5), Some(other.c_slot));

    match client.close().unsub.unwrap().message {
        BoxcarMessage::UnSub(slots) => assert_eq!(slots, vec![5]),
        _ => panic!("unexpected message"),
    }
}

#[test]
fn messages_are_copied() {
    let message = BoxcarMessage::RpcReq(request("foo", true, &[("test1", 4)]));
    match message.clone() {
        BoxcarMessage::RpcReq(copy) => {
            assert_eq!(copy.method, "foo");
            assert_eq!(copy.body, vec![1, 2, 3]);
            assert!(copy.subscribe);
            assert_eq!(copy.resources.get("test1"), Some(&4));
        }
        _ => panic!("unexpected message"),
    }
    let update = BoxcarMessage::RpcRslt((4, RpcResult::Success(vec![9])));
    assert_eq!(success_of(&update.clone()), (4, vec![9]));
}
