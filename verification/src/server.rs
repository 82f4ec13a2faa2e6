//! Answering clients.
use crate::executor::{
    found_handler, last_report_is_on_record, BoxcarExecutor, Event, ExecuteError, ExecutorView,
    Launch, Refused,
};
use crate::message::{
    BoxcarMessage, Envelope, EnvelopeView, HandlerTrait, MessageView, RequestView, ResultView,
    RpcRequest, RpcResult, TaskView,
};
use crate::rcm::{
    all_affordable, claim_views, first_refusal, fits, granted, lists, release_undoes_consume,
    returned, wanted, Claim, Pool, ResourceManager,
};
use crate::slots::{random_draw, settled, unused};
use std::collections::BTreeMap;
use vstd::prelude::*;

verus! {

broadcast use vstd::std_specs::btree::group_btree_axioms;

/// The subscriptions once those to `slots` were added. A slot that is subscribed to already keeps
/// the communication slot that it has.
pub open spec fn subscribed(
    subscriptions: Map<u16, u16>,
    slots: Seq<u16>,
    c_slot: u16,
) -> Map<u16, u16> {
    Map::new(
        |s: u16| subscriptions.contains_key(s) || slots.contains(s),
        |s: u16|
            if subscriptions.contains_key(s) {
                subscriptions[s]
            } else {
                c_slot
            },
    )
}

/// The subscriptions once those to `slots` were taken out.
pub open spec fn unsubscribed(subscriptions: Map<u16, u16>, slots: Seq<u16>) -> Map<u16, u16> {
    Map::new(
        |s: u16| subscriptions.contains_key(s) && !slots.contains(s),
        |s: u16| subscriptions[s],
    )
}

/// The update of a task that a connection passes on to its client.
pub open spec fn relayed(
    subscriptions: Map<u16, u16>,
    s_slot: u16,
    result: ResultView,
) -> Option<EnvelopeView> {
    if subscriptions.contains_key(s_slot) {
        Some(
            EnvelopeView {
                c_slot: subscriptions[s_slot],
                message: MessageView::RpcRslt(s_slot, result),
            },
        )
    } else {
        None
    }
}

/// The tasks whose updates a connection passes on, each with the client's communication slot for
/// it.
#[derive(Debug)]
pub struct Subscriptions {
    slots: BTreeMap<u16, u16>,
}

impl View for Subscriptions {
    type V = Map<u16, u16>;

    closed spec fn view(&self) -> Map<u16, u16> {
        self.slots@
    }
}

impl Subscriptions {
    pub fn new() -> (subscriptions: Self)
        ensures
            subscriptions@ == Map::<u16, u16>::empty(),
    {
        Subscriptions { slots: BTreeMap::new() }
    }

    /// Subscribe `c_slot` to `s_slot`, whatever `s_slot` went to before.
    pub fn insert(&mut self, s_slot: u16, c_slot: u16)
        ensures
            final(self)@ == old(self)@.insert(s_slot, c_slot),
    {
        self.slots.insert(s_slot, c_slot);
    }

    /// End all subscriptions.
    pub fn clear(&mut self)
        ensures
            final(self)@ == Map::<u16, u16>::empty(),
    {
        self.slots = BTreeMap::new();
    }

    /// A task reported a result. If the client is subscribed to the task, the result goes to the
    /// client.
    pub fn relay(&self, s_slot: u16, result: RpcResult) -> (envelope: Option<Envelope>)
        ensures
            match envelope {
                Some(envelope) => relayed(self@, s_slot, result@) == Some(envelope@),
                None => relayed(self@, s_slot, result@) is None,
            },
    {
        match self.slots.get(&s_slot) {
            Some(c_slot) => Some(
                Envelope { c_slot: *c_slot, message: BoxcarMessage::RpcRslt((s_slot, result)) },
            ),
            None => None,
        }
    }
}

/// Subscribe `c_slot` to the slots. What comes back says if that changed anything.
pub fn handle_sub(
    slots: &Vec<u16>,
    subscriptions: &mut Subscriptions,
    c_slot: u16,
) -> (outcome: BoxcarMessage)
    ensures
        final(subscriptions)@ == subscribed(old(subscriptions)@, slots@, c_slot),
        outcome@ == MessageView::SubOpFin(
            exists|s: u16| #[trigger] slots@.contains(s) && !old(subscriptions)@.contains_key(s),
        ),
{
    let ghost before = subscriptions@;
    let mut changed = false;
    let mut i: usize = 0;
    assert(subscribed(before, slots@.take(0), c_slot) =~= before);
    while i < slots.len()
        invariant
            i <= slots@.len(),
            before == old(subscriptions)@,
            subscriptions@ == subscribed(before, slots@.take(i as int), c_slot),
            changed == exists|s: u16| #[trigger]
                slots@.take(i as int).contains(s) && !before.contains_key(s),
        decreases slots@.len() - i,
    {
        let slot = slots[i];
        let ghost done = slots@.take(i as int);
        let ghost next = slots@.take(i + 1);
        proof {
            assert(next =~= done.push(slot));
            assert forall|s: u16| #[trigger] next.contains(s) == (done.contains(s) || s == slot) by {
                push_contains(done, slot, s);
            }
        }
        if !subscriptions.slots.contains_key(&slot) {
            changed = true;
            subscriptions.slots.insert(slot, c_slot);
            assert(next.contains(slot) && !before.contains_key(slot));
        } else {
            proof {
                if !before.contains_key(slot) {
                    assert(done.contains(slot));
                }
                if exists|s: u16| #[trigger] done.contains(s) && !before.contains_key(s) {
                    let s = choose|s: u16| #[trigger] done.contains(s) && !before.contains_key(s);
                    assert(next.contains(s));
                }
            }
        }
        assert(subscriptions@ =~= subscribed(before, next, c_slot));
        i += 1;
    }
    assert(slots@.take(i as int) =~= slots@);
    BoxcarMessage::SubOpFin(changed)
}

/// Unsubscribe from the slots. The answer says if that changed anything.
pub fn handle_unsub(slots: &Vec<u16>, subscriptions: &mut Subscriptions) -> (answer: BoxcarMessage)
    ensures
        final(subscriptions)@ == unsubscribed(old(subscriptions)@, slots@),
        answer@ == MessageView::SubOpFin(
            exists|s: u16| #[trigger] slots@.contains(s) && old(subscriptions)@.contains_key(s),
        ),
{
    let ghost before = subscriptions@;
    let mut changed = false;
    let mut i: usize = 0;
    assert(unsubscribed(before, slots@.take(0)) =~= before);
    while i < slots.len()
        invariant
            i <= slots@.len(),
            before == old(subscriptions)@,
            subscriptions@ == unsubscribed(before, slots@.take(i as int)),
            changed == exists|s: u16| #[trigger]
                slots@.take(i as int).contains(s) && before.contains_key(s),
        decreases slots@.len() - i,
    {
        let slot = slots[i];
        let ghost done = slots@.take(i as int);
        let ghost next = slots@.take(i + 1);
        proof {
            assert(next =~= done.push(slot));
            assert forall|s: u16| #[trigger] next.contains(s) == (done.contains(s) || s == slot) by {
                push_contains(done, slot, s);
            }
        }
        if subscriptions.slots.contains_key(&slot) {
            changed = true;
            subscriptions.slots.remove(&slot);
            assert(next.contains(slot) && before.contains_key(slot));
        } else {
            proof {
                if before.contains_key(slot) {
                    assert(done.contains(slot));
                }
                if exists|s: u16| #[trigger] done.contains(s) && before.contains_key(s) {
                    let s = choose|s: u16| #[trigger] done.contains(s) && before.contains_key(s);
                    assert(next.contains(s));
                }
            }
        }
        assert(subscriptions@ =~= unsubscribed(before, next));
        i += 1;
    }
    assert(slots@.take(i as int) =~= slots@);
    BoxcarMessage::SubOpFin(changed)
}

proof fn push_contains(slots: Seq<u16>, slot: u16, s: u16)
    ensures
        slots.push(slot).contains(s) == (slots.contains(s) || s == slot),
{
    let longer = slots.push(slot);
    if slots.contains(s) {
        let i = choose|i: int| 0 <= i < slots.len() && slots[i] == s;
        assert(longer[i] == s);
    }
    if s == slot {
        assert(longer[slots.len() as int] == s);
    }
    if longer.contains(s) && s != slot {
        let i = choose|i: int| 0 <= i < longer.len() && longer[i] == s;
        assert(slots[i] == s);
    }
}

/// Respond to a ping with a pong
pub fn handle_ping(num: u8) -> (answer: BoxcarMessage)
    ensures
        answer@ == MessageView::Pong(num),
{
    BoxcarMessage::Pong(num)
}

/// The answer to the question for the result of the task in `s_slot`.
pub open spec fn result_answer(tasks: Map<u16, TaskView>, s_slot: u16) -> MessageView {
    if tasks.contains_key(s_slot) {
        MessageView::RpcRslt(s_slot, tasks[s_slot].result)
    } else {
        MessageView::ServerError("no such s_slot"@)
    }
}

/// Answer with the last recorded result of a task.
pub fn handle_rpc_req_result<H>(s_slot: u16, executor: &BoxcarExecutor<H>) -> (answer:
    BoxcarMessage)
    ensures
        answer@ == result_answer(executor@.tasks, s_slot),
{
    match executor.result(s_slot) {
        Some(result) => BoxcarMessage::RpcRslt((s_slot, result)),
        None => BoxcarMessage::ServerError("no such s_slot".to_owned()),
    }
}

/// The answer to a subscription: the last recorded result of the first task, or an error if there
/// is not a task in each of the slots.
pub open spec fn sub_answer(tasks: Map<u16, TaskView>, slots: Seq<u16>) -> MessageView {
    if slots.len() > 0 && forall|i: int|
        0 <= i < slots.len() ==> tasks.contains_key(#[trigger] slots[i]) {
        MessageView::RpcRslt(slots[0], tasks[slots[0]].result)
    } else {
        MessageView::ServerError("no such s_slot"@)
    }
}

/// Answer a subscription with the last recorded result of the first task. What the other tasks
/// recorded can be asked for.
pub fn answer_sub<H>(slots: &Vec<u16>, executor: &BoxcarExecutor<H>) -> (answer: BoxcarMessage)
    ensures
        answer@ == sub_answer(executor@.tasks, slots@),
{
    let mut i: usize = 0;
    while i < slots.len()
        invariant
            i <= slots@.len(),
            forall|j: int| 0 <= j < i ==> executor@.tasks.contains_key(#[trigger] slots@[j]),
        decreases slots@.len() - i,
    {
        if !executor.has_task(slots[i]) {
            return BoxcarMessage::ServerError("no such s_slot".to_owned());
        }
        i += 1;
    }
    if slots.len() == 0 {
        return BoxcarMessage::ServerError("no such s_slot".to_owned());
    }
    handle_rpc_req_result(slots[0], executor)
}

/// The client shuts down: nothing more is passed on to it.
pub fn handle_hangup(subscriptions: &mut Subscriptions) -> (answer: BoxcarMessage)
    ensures
        final(subscriptions)@ == Map::<u16, u16>::empty(),
        answer@ == MessageView::Hangup,
{
    subscriptions.clear();
    BoxcarMessage::Hangup
}

/// The task that `launch` starts runs the method of `request`, with its body, and reports under
/// its own slot.
pub open spec fn launches<H: HandlerTrait>(
    launch: Launch,
    handlers: Seq<H>,
    request: RequestView,
) -> bool {
    &&& found_handler(handlers, request.method, Some(launch.handler))
    &&& launch.method@ == request.method
    &&& launch.body@ == request.body
    &&& launch.bus.slot() == launch.s_slot
}

/// An answer, and the task that is to run because of the request that is answered.
#[derive(Debug)]
pub struct Answer {
    pub message: BoxcarMessage,
    pub launch: Option<Launch>,
}

/// Schedule a request for which the resources were claimed, given the slot and the handler that
/// were found for it, if any were, and answer it.
///
/// There is no answer without a slot. The claims go back to the pool if the request is not
/// scheduled.
pub fn answer_in<H>(
    slot: Option<u16>,
    found: Option<usize>,
    request: RpcRequest,
    executor: &mut BoxcarExecutor<H>,
    claims: Vec<Claim>,
    resource_manager: &mut ResourceManager,
) -> (answer: Option<Answer>)
    requires
        old(executor).wf(),
        fits(old(resource_manager)@, claim_views(claims@)),
        slot matches Some(s_slot) ==> old(executor)@.slots.contains(s_slot)
            && !old(executor)@.tasks.contains_key(s_slot),
    ensures
        final(executor).wf(),
        final(executor).handlers() == old(executor).handlers(),
        match (slot, found) {
            (Some(s_slot), Some(handler)) => {
                &&& answer is Some
                &&& answer->0.message@ == MessageView::RpcReqSlot(s_slot)
                &&& answer->0.launch is Some
                &&& answer->0.launch->0.handler == handler
                &&& answer->0.launch->0.s_slot == s_slot
                &&& answer->0.launch->0.bus.slot() == s_slot
                &&& answer->0.launch->0.method@ == request.method@
                &&& answer->0.launch->0.body@ == request.body@
                &&& final(executor)@ == old(executor)@.with_task(
                    s_slot,
                    request@,
                    claim_views(claims@),
                )
                &&& final(resource_manager)@ == old(resource_manager)@
            },
            (Some(_), None) => {
                &&& answer is Some
                &&& answer->0.message@ == MessageView::ServerError(
                    "unable to schedule request. no such handler"@,
                )
                &&& answer->0.launch is None
                &&& final(executor)@ == old(executor)@
                &&& final(resource_manager)@ == returned(
                    old(resource_manager)@,
                    claim_views(claims@),
                )
            },
            (None, _) => {
                &&& answer is None
                &&& final(executor)@ == old(executor)@
                &&& final(resource_manager)@ == returned(
                    old(resource_manager)@,
                    claim_views(claims@),
                )
            },
        },
{
    match executor.execute_in(slot, found, request, claims) {
        Ok(launch) => Some(
            Answer {
                message: BoxcarMessage::RpcReqSlot(launch.s_slot),
                launch: Some(launch),
            },
        ),
        Err(refused) => {
            let Refused { error, claims } = refused;
            resource_manager.release_all(claims);
            match error {
                ExecuteError::NoSlot => None,
                ExecuteError::NoHandler => Some(
                    Answer {
                        message: BoxcarMessage::ServerError(
                            "unable to schedule request. no such handler".to_owned(),
                        ),
                        launch: None,
                    },
                ),
            }
        },
    }
}

/// Schedule a request for which the resources were claimed.
///
/// There is no answer if no vacant slot was found. The claims go back to the pool if the request
/// is not scheduled.
pub fn handle_rpc_req<H: HandlerTrait>(
    request: RpcRequest,
    executor: &mut BoxcarExecutor<H>,
    claims: Vec<Claim>,
    resource_manager: &mut ResourceManager,
) -> (answer: Option<Answer>)
    requires
        old(executor).wf(),
        fits(old(resource_manager)@, claim_views(claims@)),
    ensures
        final(executor).wf(),
        final(executor).handlers() == old(executor).handlers(),
        match answer {
            None => {
                &&& settled(random_draw, unused(old(executor)@.slots), None)
                &&& old(executor)@.slots.len() > 0
                &&& final(executor)@ == old(executor)@
                &&& final(resource_manager)@ == returned(
                    old(resource_manager)@,
                    claim_views(claims@),
                )
            },
            Some(answer) => match answer.launch {
                Some(launch) => {
                    &&& launches(launch, old(executor).handlers(), request@)
                    &&& answer.message@ == MessageView::RpcReqSlot(launch.s_slot)
                    &&& settled(random_draw, unused(old(executor)@.slots), Some(launch.s_slot))
                    &&& !old(executor)@.slots.contains(launch.s_slot)
                    &&& final(executor)@ == old(executor)@.with_slot(launch.s_slot).with_task(
                        launch.s_slot,
                        request@,
                        claim_views(claims@),
                    )
                    &&& final(resource_manager)@ == old(resource_manager)@
                },
                None => {
                    &&& found_handler(old(executor).handlers(), request.method@, None)
                    &&& answer.message@ == MessageView::ServerError(
                        "unable to schedule request. no such handler"@,
                    )
                    &&& exists|s_slot: u16|
                        {
                            &&& settled(random_draw, unused(old(executor)@.slots), Some(s_slot))
                            &&& !old(executor)@.slots.contains(s_slot)
                            &&& final(executor)@ == #[trigger] old(executor)@.with_slot(s_slot)
                        }
                    &&& final(resource_manager)@ == returned(
                        old(resource_manager)@,
                        claim_views(claims@),
                    )
                },
            },
        },
{
    let (slot, found) = executor.place(&request.method);
    answer_in(slot, found, request, executor, claims, resource_manager)
}

/// The server has an answer to the message.
pub open spec fn answerable(message: MessageView) -> bool {
    match message {
        MessageView::RpcReq(_) => true,
        MessageView::RpcReqRslt(_) => true,
        MessageView::Sub(_) => true,
        MessageView::UnSub(_) => true,
        MessageView::Hangup => true,
        MessageView::Ping(_) => true,
        MessageView::Pong(_) => true,
        _ => false,
    }
}

pub fn is_answerable(message: &BoxcarMessage) -> (yes: bool)
    ensures
        yes == answerable(message@),
{
    match message {
        BoxcarMessage::RpcReq(_) => true,
        BoxcarMessage::RpcReqRslt(_) => true,
        BoxcarMessage::Sub(_) => true,
        BoxcarMessage::UnSub(_) => true,
        BoxcarMessage::Hangup => true,
        BoxcarMessage::Ping(_) => true,
        BoxcarMessage::Pong(_) => true,
        _ => false,
    }
}

/// What goes back to the client, and the task that is to run because of the message.
#[derive(Debug)]
pub struct Reply {
    pub envelope: Envelope,
    pub launch: Option<Launch>,
}

/// All that a message can change.
pub struct ServerState {
    pub executor: ExecutorView,
    pub subscriptions: Map<u16, u16>,
    pub pool: Pool,
}

/// Reply to a request that came in on `c_slot`, given the answer to it, if there is one. The client
/// is subscribed to the task that is to run if it asked to be.
pub fn reply_in(
    answer: Option<Answer>,
    c_slot: u16,
    subscribe: bool,
    subscriptions: &mut Subscriptions,
) -> (reply: Option<Reply>)
    ensures
        match answer {
            Some(answer) => {
                &&& reply == Some(
                    Reply {
                        envelope: Envelope { c_slot, message: answer.message },
                        launch: answer.launch,
                    },
                )
                &&& final(subscriptions)@ == (if subscribe && answer.launch is Some {
                    old(subscriptions)@.insert(answer.launch->0.s_slot, c_slot)
                } else {
                    old(subscriptions)@
                })
            },
            None => reply is None && final(subscriptions)@ == old(subscriptions)@,
        },
{
    match answer {
        None => None,
        Some(answer) => {
            if subscribe {
                if let Some(launch) = &answer.launch {
                    subscriptions.insert(launch.s_slot, c_slot);
                }
            }
            Some(
                Reply {
                    envelope: Envelope { c_slot, message: answer.message },
                    launch: answer.launch,
                },
            )
        },
    }
}

/// How the server handles a request that came in on `c_slot`.
///
/// - If some resource cannot be given, the answer is the reason, and nothing changes.
/// - If no vacant slot was found, there is no answer, and nothing changes.
/// - If no handler runs the method, the answer is an error, a slot is used up, and nothing else
///   changes.
/// - Otherwise the answer is the slot of the task, the task is on record with its resources, and
///   the client is subscribed to it if it asked to be.
pub open spec fn request_handled<H: HandlerTrait>(
    handlers: Seq<H>,
    c_slot: u16,
    request: RequestView,
    order: Seq<Seq<char>>,
    before: ServerState,
    after: ServerState,
    reply: Option<Reply>,
) -> bool {
    match reply {
        None => {
            &&& all_affordable(before.pool, request.resources)
            &&& settled(random_draw, unused(before.executor.slots), None)
            &&& before.executor.slots.len() > 0
            &&& after == before
        },
        Some(reply) => match reply.launch {
            Some(launch) => {
                &&& all_affordable(before.pool, request.resources)
                &&& lists(order, request.resources)
                &&& launches(launch, handlers, request)
                &&& reply.envelope.message@ == MessageView::RpcReqSlot(launch.s_slot)
                &&& settled(random_draw, unused(before.executor.slots), Some(launch.s_slot))
                &&& !before.executor.slots.contains(launch.s_slot)
                &&& after == (ServerState {
                    executor: before.executor.with_slot(launch.s_slot).with_task(
                        launch.s_slot,
                        request,
                        wanted(order, request.resources),
                    ),
                    subscriptions: if request.subscribe {
                        before.subscriptions.insert(launch.s_slot, c_slot)
                    } else {
                        before.subscriptions
                    },
                    pool: granted(before.pool, request.resources),
                })
            },
            None => if all_affordable(before.pool, request.resources) {
                &&& found_handler(handlers, request.method, None)
                &&& reply.envelope.message@ == MessageView::ServerError(
                    "unable to schedule request. no such handler"@,
                )
                &&& exists|s_slot: u16|
                    {
                        &&& settled(random_draw, unused(before.executor.slots), Some(s_slot))
                        &&& !before.executor.slots.contains(s_slot)
                        &&& after == (ServerState {
                            executor: #[trigger] before.executor.with_slot(s_slot),
                            ..before
                        })
                    }
            } else {
                &&& lists(order, request.resources)
                &&& reply.envelope.message@ matches MessageView::ResourceError(error)
                    && first_refusal(before.pool, order, request.resources, error)
                &&& after == before
            },
        },
    }
}

/// How the server handles a message that came in on `c_slot`.
pub open spec fn message_handled<H: HandlerTrait>(
    handlers: Seq<H>,
    envelope: Envelope,
    before: ServerState,
    after: ServerState,
    reply: Option<Reply>,
) -> bool {
    &&& reply matches Some(reply) ==> reply.envelope.c_slot == envelope.c_slot
    &&& match envelope.message {
        BoxcarMessage::RpcReq(request) => request_handled(
            handlers,
            envelope.c_slot,
            request@,
            request.resources.order(),
            before,
            after,
            reply,
        ),
        _ => {
            &&& reply is Some
            &&& reply->0.launch is None
            &&& match envelope.message@ {
                MessageView::RpcReqRslt(s_slot) => {
                    &&& reply->0.envelope.message@ == result_answer(before.executor.tasks, s_slot)
                    &&& after == before
                },
                MessageView::Sub(slots) => {
                    &&& reply->0.envelope.message@ == sub_answer(before.executor.tasks, slots)
                    &&& after == (ServerState {
                        subscriptions: subscribed(before.subscriptions, slots, envelope.c_slot),
                        ..before
                    })
                },
                MessageView::UnSub(slots) => {
                    &&& reply->0.envelope.message@ == MessageView::SubOpFin(
                        exists|s: u16| #[trigger]
                            slots.contains(s) && before.subscriptions.contains_key(s),
                    )
                    &&& after == (ServerState {
                        subscriptions: unsubscribed(before.subscriptions, slots),
                        ..before
                    })
                },
                MessageView::Hangup => {
                    &&& reply->0.envelope.message@ == MessageView::Hangup
                    &&& after == (ServerState { subscriptions: Map::empty(), ..before })
                },
                MessageView::Ping(num) => {
                    &&& reply->0.envelope.message@ == MessageView::Pong(num)
                    &&& after == before
                },
                _ => {
                    &&& reply->0.envelope.message@ == MessageView::ServerError(
                        "unsupported message"@,
                    )
                    &&& after == before
                },
            }
        },
    }
}

/// Handle a message of a client. The reply goes to the communication slot that the message came
/// in on. There is none for a request if no vacant slot was found for its task.
pub fn message_handler<H: HandlerTrait>(
    envelope: Envelope,
    executor: &mut BoxcarExecutor<H>,
    subscriptions: &mut Subscriptions,
    resource_manager: &mut ResourceManager,
) -> (reply: Option<Reply>)
    requires
        old(executor).wf(),
        answerable(envelope.message@),
    ensures
        final(executor).wf(),
        final(executor).handlers() == old(executor).handlers(),
        message_handled(
            old(executor).handlers(),
            envelope,
            ServerState {
                executor: old(executor)@,
                subscriptions: old(subscriptions)@,
                pool: old(resource_manager)@,
            },
            ServerState {
                executor: final(executor)@,
                subscriptions: final(subscriptions)@,
                pool: final(resource_manager)@,
            },
            reply,
        ),
{
    let Envelope { c_slot, message } = envelope;
    let ghost pool = resource_manager@;
    match message {
        BoxcarMessage::RpcReq(request) => {
            let subscribe = request.subscribe;
            match resource_manager.consume_all(&request.resources) {
                Err(error) => Some(
                    Reply {
                        envelope: Envelope {
                            c_slot,
                            message: BoxcarMessage::ResourceError(error),
                        },
                        launch: None,
                    },
                ),
                Ok(claims) => {
                    proof {
                        release_undoes_consume(pool, request.resources.order(), request.resources@);
                    }
                    let answer = handle_rpc_req(request, executor, claims, resource_manager);
                    reply_in(answer, c_slot, subscribe, subscriptions)
                },
            }
        },
        BoxcarMessage::RpcReqRslt(s_slot) => reply_with(
            c_slot,
            handle_rpc_req_result(s_slot, executor),
        ),
        BoxcarMessage::Sub(slots) => {
            // the client hears of the task, not of what its subscription changed
            let _ = handle_sub(&slots, subscriptions, c_slot);
            reply_with(c_slot, answer_sub(&slots, executor))
        },
        BoxcarMessage::UnSub(slots) => reply_with(c_slot, handle_unsub(&slots, subscriptions)),
        BoxcarMessage::Hangup => reply_with(c_slot, handle_hangup(subscriptions)),
        BoxcarMessage::Ping(num) => reply_with(c_slot, handle_ping(num)),
        _ => reply_with(c_slot, BoxcarMessage::ServerError("unsupported message".to_owned())),
    }
}

fn reply_with(c_slot: u16, message: BoxcarMessage) -> (reply: Option<Reply>)
    ensures
        reply == Some(Reply { envelope: Envelope { c_slot, message }, launch: None }),
{
    Some(Reply { envelope: Envelope { c_slot, message }, launch: None })
}

/// Where a server listens.
#[derive(Debug)]
pub struct BindAddr {
    /// The IP address, in text
    pub ip: String,
    pub port: u16,
}

/// A server: where it listens, what it runs, and what its tasks can claim.
#[verifier::reject_recursive_types(H)]
pub struct Server<H> {
    pub bind: BindAddr,
    pub executor: BoxcarExecutor<H>,
    pub resource_manager: ResourceManager,
}

impl<H> Server<H> {
    /// A server for local clients, with nothing to run and no resources.
    pub fn new() -> (server: Self)
        ensures
            server.bind.ip@ == "127.0.0.1"@,
            server.bind.port == 9930,
            server.executor.wf(),
            server.executor.handlers() == Seq::<H>::empty(),
            server.executor@ == (ExecutorView {
                slots: Seq::empty(),
                tasks: Map::empty(),
                claims: Map::empty(),
            }),
            server.resource_manager@ == Map::<Seq<char>, usize>::empty(),
    {
        Server {
            bind: BindAddr { ip: "127.0.0.1".to_owned(), port: 9930 },
            executor: BoxcarExecutor::new(),
            resource_manager: ResourceManager::new(),
        }
    }

    pub fn bind(self, bind: BindAddr) -> (server: Self)
        ensures
            server == (Server { bind, ..self }),
    {
        Server {
            bind,
            executor: self.executor,
            resource_manager: self.resource_manager,
        }
    }

    pub fn executor(self, executor: BoxcarExecutor<H>) -> (server: Self)
        ensures
            server == (Server { executor, ..self }),
    {
        Server { bind: self.bind, executor, resource_manager: self.resource_manager }
    }

    pub fn resource_manager(self, resource_manager: ResourceManager) -> (server: Self)
        ensures
            server == (Server { resource_manager, ..self }),
    {
        Server { bind: self.bind, executor: self.executor, resource_manager }
    }

    /// Can the task in `s_slot` be finished? It cannot if so much was added to the pool that what
    /// the task holds can no longer be counted along with it.
    pub fn can_finish(&self, s_slot: u16) -> (yes: bool)
        ensures
            yes == fits(self.resource_manager@, self.executor@.holds(s_slot)),
    {
        match self.executor.held_claims(s_slot) {
            Some(claims) => self.resource_manager.can_release(claims),
            None => true,
        }
    }

    /// The task in `s_slot` is over: what it held goes back to the pool.
    pub fn finish_task(&mut self, s_slot: u16)
        requires
            old(self).executor.wf(),
            fits(old(self).resource_manager@, old(self).executor@.holds(s_slot)),
        ensures
            final(self).bind == old(self).bind,
            final(self).executor.wf(),
            final(self).executor.handlers() == old(self).executor.handlers(),
            final(self).executor@ == old(self).executor@.after(Event::Finished { s_slot }),
            final(self).resource_manager@ == returned(
                old(self).resource_manager@,
                old(self).executor@.holds(s_slot),
            ),
    {
        let claims = self.executor.finish_task(s_slot);
        self.resource_manager.release_all(claims);
    }
}

impl<H> Default for Server<H> {
    fn default() -> (server: Self)
        ensures
            server.bind.ip@ == "127.0.0.1"@,
            server.bind.port == 9930,
            server.executor.wf(),
            server.executor.handlers() == Seq::<H>::empty(),
            server.executor@ == (ExecutorView {
                slots: Seq::empty(),
                tasks: Map::empty(),
                claims: Map::empty(),
            }),
            server.resource_manager@ == Map::<Seq<char>, usize>::empty(),
    {
        Self::new()
    }
}

/// A client that subscribes to a task gets what the task reports from then on.
pub proof fn subscriber_gets_updates(
    subscriptions: Map<u16, u16>,
    slots: Seq<u16>,
    c_slot: u16,
    s_slot: u16,
    result: ResultView,
)
    requires
        slots.contains(s_slot),
        !subscriptions.contains_key(s_slot),
    ensures
        relayed(subscribed(subscriptions, slots, c_slot), s_slot, result) == Some(
            EnvelopeView { c_slot, message: MessageView::RpcRslt(s_slot, result) },
        ),
{
}

/// Subscribing leaves the subscriptions alone that are there already.
pub proof fn subscribing_keeps_subscriptions(
    subscriptions: Map<u16, u16>,
    slots: Seq<u16>,
    c_slot: u16,
    s_slot: u16,
    result: ResultView,
)
    requires
        subscriptions.contains_key(s_slot),
    ensures
        relayed(subscribed(subscriptions, slots, c_slot), s_slot, result) == relayed(
            subscriptions,
            s_slot,
            result,
        ),
{
}

/// A client that unsubscribes from a task gets nothing more of it, and goes on getting everything
/// of the other tasks.
pub proof fn unsubscriber_gets_nothing(
    subscriptions: Map<u16, u16>,
    slots: Seq<u16>,
    s_slot: u16,
    result: ResultView,
)
    ensures
        relayed(unsubscribed(subscriptions, slots), s_slot, result) == (if slots.contains(s_slot) {
            None
        } else {
            relayed(subscriptions, s_slot, result)
        }),
{
}

/// A client that hangs up gets nothing more of any task.
pub proof fn hung_up_client_gets_nothing<H: HandlerTrait>(
    handlers: Seq<H>,
    envelope: Envelope,
    before: ServerState,
    after: ServerState,
    reply: Option<Reply>,
    s_slot: u16,
    result: ResultView,
)
    requires
        envelope.message is Hangup,
        message_handled(handlers, envelope, before, after, reply),
    ensures
        relayed(after.subscriptions, s_slot, result) is None,
{
}

/// The answer to a subscription to a task is what the answer to the question for its result would
/// be.
pub proof fn subscriber_gets_last_result(tasks: Map<u16, TaskView>, s_slot: u16)
    ensures
        sub_answer(tasks, seq![s_slot]) == result_answer(tasks, s_slot),
{
    assert(seq![s_slot][0] == s_slot);
}

/// Unsubscribing undoes subscribing.
pub proof fn unsub_undoes_sub(subscriptions: Map<u16, u16>, slots: Seq<u16>, c_slot: u16)
    requires
        forall|s: u16| #[trigger] slots.contains(s) ==> !subscriptions.contains_key(s),
    ensures
        unsubscribed(subscribed(subscriptions, slots, c_slot), slots) == subscriptions,
{
    assert(unsubscribed(subscribed(subscriptions, slots, c_slot), slots) =~= subscriptions);
}

/// Subscribing to the same slots again changes nothing.
pub proof fn sub_again_changes_nothing(
    subscriptions: Map<u16, u16>,
    slots: Seq<u16>,
    c_slot: u16,
    other: u16,
)
    ensures
        subscribed(subscribed(subscriptions, slots, c_slot), slots, other) == subscribed(
            subscriptions,
            slots,
            c_slot,
        ),
        !(exists|s: u16| #[trigger]
            slots.contains(s) && !subscribed(subscriptions, slots, c_slot).contains_key(s)),
{
    assert(subscribed(subscribed(subscriptions, slots, c_slot), slots, other) =~= subscribed(
        subscriptions,
        slots,
        c_slot,
    ));
}

/// Once a task is over, the pool is as it was before its request came in.
pub proof fn finished_task_returns_resources(
    executor: ExecutorView,
    pool: Pool,
    s_slot: u16,
    request: RequestView,
    order: Seq<Seq<char>>,
)
    requires
        all_affordable(pool, request.resources),
        lists(order, request.resources),
    ensures
        ({
            let running = executor.with_slot(s_slot).with_task(
                s_slot,
                request,
                wanted(order, request.resources),
            );
            let left = granted(pool, request.resources);
            &&& fits(left, running.holds(s_slot))
            &&& returned(left, running.holds(s_slot)) == pool
        }),
{
    release_undoes_consume(pool, order, request.resources);
}

/// Any client can come back later for a result: once a task reported a result, the answer to the
/// question for it is that result, whatever happened in the meantime, unless the task reported
/// another one.
pub proof fn result_can_be_asked_for_later(
    executor: ExecutorView,
    s_slot: u16,
    result: ResultView,
    events: Seq<Event>,
)
    requires
        executor.wf(),
        executor.tasks.contains_key(s_slot),
        executor.after(Event::Reported { s_slot, result }).admits_all(events),
        forall|i: int|
            0 <= i < events.len() ==> !((#[trigger] events[i]) is Reported
                && events[i]->Reported_s_slot == s_slot),
    ensures
        result_answer(
            executor.after(Event::Reported { s_slot, result }).after_all(events).tasks,
            s_slot,
        ) == MessageView::RpcRslt(s_slot, result),
{
    last_report_is_on_record(executor, s_slot, result, events);
}

} // verus!
