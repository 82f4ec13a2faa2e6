//! What a server does with each message, in terms of what it is told and what it says.
use crate::executor::{result_is_kept, BoxcarExecutor, Event, ExecutorView, Launch};
use crate::message::{
    BoxcarMessage, Envelope, HandlerTrait, MessageView, ResultView, RpcRequest, RpcResult,
};
use crate::rcm::{claim_views, held, held_push, Claim, ClaimView, ResourceError, ResourceManager};
use crate::server::{
    answer_in, handle_hangup, handle_ping, handle_rpc_req, handle_rpc_req_result, handle_sub,
    handle_unsub, is_answerable, message_handler, reply_in, Answer, Reply, Server, Subscriptions,
};
use crate::slots::{all_draws_missed, random_draw};
use vstd::prelude::*;

verus! {

/// No slot was found for a task: every one of all the draws that are made hit a slot in `slots`.
pub open spec fn no_slot_was_drawn(slots: Seq<u16>) -> bool {
    exists|draws: Seq<u16>|
        {
            &&& #[trigger] draws.len() == 1026
            &&& forall|i: int|
                0 <= i < 1026 ==> call_ensures(random_draw, (i as u32,), #[trigger] draws[i])
                    && slots.contains(draws[i])
        }
}

/// The handler runs the method: it never says that it does not.
pub open spec fn runs<H: HandlerTrait>(handler: H, method: Seq<char>) -> bool {
    forall|m: &str| m@ == method ==> !#[trigger] call_ensures(H::contains, (&handler, m), false)
}

/// Every request is answered, unless no slot could be drawn for it. If a handler runs the method,
/// the answer is the slot of the task that is to run, which no task had before, and the task keeps
/// the claims that were made for it. Else what was claimed goes back to the pool.
pub proof fn requests_are_answered<H: HandlerTrait>(
    request: RpcRequest,
    executor: &mut BoxcarExecutor<H>,
    claims: Vec<Claim>,
    resource_manager: &mut ResourceManager,
    answer: Option<Answer>,
    name: Seq<char>,
)
    requires
        call_ensures(handle_rpc_req::<H>, (request, executor, claims, resource_manager), answer),
    ensures
        answer is None ==> no_slot_was_drawn(old(executor)@.slots),
        answer is Some && (exists|i: int|
            0 <= i < old(executor).handlers().len() && runs(
                #[trigger] old(executor).handlers()[i],
                request.method@,
            )) ==> answer->0.launch is Some,
        answer matches Some(Answer { message, launch: Some(launch) }) ==> {
            &&& message@ == MessageView::RpcReqSlot(launch.s_slot)
            &&& !old(executor)@.slots.contains(launch.s_slot)
            &&& final(executor)@.slots == old(executor)@.slots.push(launch.s_slot)
            &&& final(executor)@.tasks.contains_key(launch.s_slot)
            &&& final(executor)@.tasks[launch.s_slot].result is Pending
            &&& launch.method@ == request.method@
            &&& launch.body@ == request.body@
        },
        answer matches Some(Answer { message, launch: None }) ==> message@
            == MessageView::ServerError("unable to schedule request. no such handler"@),
        answer matches Some(Answer { message, launch: Some(launch) }) ==> {
            &&& launch.bus.slot() == launch.s_slot
            &&& final(executor)@.holds(launch.s_slot) == claim_views(claims@)
            &&& final(executor)@.tasks[launch.s_slot].request == request@
            &&& final(resource_manager)@ == old(resource_manager)@
        },
        !(answer matches Some(Answer { message, launch: Some(launch) })) ==> {
            &&& final(executor)@.tasks == old(executor)@.tasks
            &&& final(executor)@.claims == old(executor)@.claims
            &&& final(resource_manager)@.contains_key(name)
                == old(resource_manager)@.contains_key(name)
            &&& old(resource_manager)@.contains_key(name) && old(resource_manager)@[name] + held(
                claim_views(claims@),
                name,
            ) <= usize::MAX ==> final(resource_manager)@[name] == old(resource_manager)@[name]
                + held(claim_views(claims@), name)
        },
{
    if answer is None {
        let draws = all_draws_missed(random_draw, old(executor)@.slots);
        assert(draws.len() == 1026);
    }
}

/// A request that is given a slot and a handler is answered with that slot and runs there. One that
/// is given no handler is refused, and one that is given no slot gets no answer. What was claimed
/// for a request that does not run goes back to the pool.
pub proof fn requests_run_in_their_slot<H>(
    slot: Option<u16>,
    found: Option<usize>,
    request: RpcRequest,
    executor: &mut BoxcarExecutor<H>,
    claims: Vec<Claim>,
    resource_manager: &mut ResourceManager,
    answer: Option<Answer>,
    name: Seq<char>,
)
    requires
        call_ensures(
            answer_in::<H>,
            (slot, found, request, executor, claims, resource_manager),
            answer,
        ),
    ensures
        answer is Some <==> slot is Some,
        slot is Some ==> (answer->0.launch is Some <==> found is Some),
        slot is Some && found is Some ==> {
            &&& answer->0.message@ == MessageView::RpcReqSlot(slot->0)
            &&& answer->0.launch->0.s_slot == slot->0
            &&& answer->0.launch->0.handler == found->0
            &&& answer->0.launch->0.bus.slot() == slot->0
            &&& answer->0.launch->0.method@ == request.method@
            &&& answer->0.launch->0.body@ == request.body@
            &&& final(executor)@.tasks.contains_key(slot->0)
            &&& final(executor)@.tasks[slot->0].request == request@
            &&& final(executor)@.tasks[slot->0].result is Pending
            &&& final(executor)@.holds(slot->0).len() == claims@.len()
            &&& forall|i: int|
                0 <= i < claims@.len() ==> #[trigger] final(executor)@.holds(slot->0)[i]
                    == claims@[i]@
            &&& final(resource_manager)@ == old(resource_manager)@
        },
        slot is Some && found is None ==> answer->0.message@ == MessageView::ServerError(
            "unable to schedule request. no such handler"@,
        ),
        slot is None || found is None ==> {
            &&& final(executor)@ == old(executor)@
            &&& final(resource_manager)@.contains_key(name)
                == old(resource_manager)@.contains_key(name)
            &&& old(resource_manager)@.contains_key(name) && old(resource_manager)@[name] + held(
                claim_views(claims@),
                name,
            ) <= usize::MAX ==> final(resource_manager)@[name] == old(resource_manager)@[name]
                + held(claim_views(claims@), name)
        },
{
}

/// The reply to a message goes to the communication slot that the message came in on. Every message
/// has a reply but a request for which no slot could be drawn.
pub proof fn messages_are_replied_to<H: HandlerTrait>(
    envelope: Envelope,
    executor: &mut BoxcarExecutor<H>,
    subscriptions: &mut Subscriptions,
    resource_manager: &mut ResourceManager,
    reply: Option<Reply>,
)
    requires
        call_ensures(
            message_handler::<H>,
            (envelope, executor, subscriptions, resource_manager),
            reply,
        ),
    ensures
        reply matches Some(r) ==> r.envelope.c_slot == envelope.c_slot,
        reply is None ==> envelope.message is RpcReq && no_slot_was_drawn(old(executor)@.slots),
        final(executor).handlers() == old(executor).handlers(),
{
    if reply is None {
        let draws = all_draws_missed(random_draw, old(executor)@.slots);
        assert(draws.len() == 1026);
    }
}

/// Any client that asks for the result of a task that is on record gets the result that is on
/// record, whatever it is, and the question changes nothing. It gets an error if there is no such
/// task.
pub proof fn results_can_be_asked_for<H: HandlerTrait>(
    c_slot: u16,
    s_slot: u16,
    executor: &mut BoxcarExecutor<H>,
    subscriptions: &mut Subscriptions,
    resource_manager: &mut ResourceManager,
    reply: Option<Reply>,
)
    requires
        call_ensures(
            message_handler::<H>,
            (
                Envelope { c_slot, message: BoxcarMessage::RpcReqRslt(s_slot) },
                executor,
                subscriptions,
                resource_manager,
            ),
            reply,
        ),
    ensures
        reply is Some,
        reply->0.launch is None,
        reply->0.envelope.c_slot == c_slot,
        old(executor)@.tasks.contains_key(s_slot) ==> reply->0.envelope.message@
            == MessageView::RpcRslt(s_slot, old(executor)@.tasks[s_slot].result),
        !old(executor)@.tasks.contains_key(s_slot) ==> reply->0.envelope.message@
            == MessageView::ServerError("no such s_slot"@),
        final(executor)@ == old(executor)@,
        final(subscriptions)@ == old(subscriptions)@,
        final(resource_manager)@ == old(resource_manager)@,
{
}

/// What a task reports is what a client is told that asks for its result next.
pub proof fn reported_result_is_told<H: HandlerTrait>(
    s_slot: u16,
    result: RpcResult,
    recorder: &mut BoxcarExecutor<H>,
    known: bool,
    c_slot: u16,
    executor: &mut BoxcarExecutor<H>,
    subscriptions: &mut Subscriptions,
    resource_manager: &mut ResourceManager,
    reply: Option<Reply>,
)
    requires
        call_ensures(BoxcarExecutor::<H>::record, (recorder, s_slot, result), known),
        *old(executor) == *final(recorder),
        old(recorder)@.tasks.contains_key(s_slot),
        call_ensures(
            message_handler::<H>,
            (
                Envelope { c_slot, message: BoxcarMessage::RpcReqRslt(s_slot) },
                executor,
                subscriptions,
                resource_manager,
            ),
            reply,
        ),
    ensures
        known,
        reply is Some,
        reply->0.envelope.message@ == MessageView::RpcRslt(s_slot, result@),
{
}

/// A client can come back for a result at any time: whatever happened since a task reported it, a
/// client that asks is told that result, unless the task reported another one.
pub proof fn reported_result_is_told_later<H: HandlerTrait>(
    reported: ExecutorView,
    s_slot: u16,
    result: ResultView,
    events: Seq<Event>,
    c_slot: u16,
    executor: &mut BoxcarExecutor<H>,
    subscriptions: &mut Subscriptions,
    resource_manager: &mut ResourceManager,
    reply: Option<Reply>,
)
    requires
        reported.wf(),
        reported.tasks.contains_key(s_slot),
        reported.tasks[s_slot].result == result,
        reported.admits_all(events),
        forall|i: int|
            0 <= i < events.len() ==> !((#[trigger] events[i]) is Reported
                && events[i]->Reported_s_slot == s_slot),
        old(executor)@ == reported.after_all(events),
        call_ensures(
            message_handler::<H>,
            (
                Envelope { c_slot, message: BoxcarMessage::RpcReqRslt(s_slot) },
                executor,
                subscriptions,
                resource_manager,
            ),
            reply,
        ),
    ensures
        reply is Some,
        reply->0.envelope.c_slot == c_slot,
        reply->0.envelope.message@ == MessageView::RpcRslt(s_slot, result),
{
    result_is_kept(reported, events, s_slot);
}

/// The answer to the question for a result is the result of the task that is on record.
pub proof fn answer_is_the_record<H>(
    s_slot: u16,
    executor: &BoxcarExecutor<H>,
    answer: BoxcarMessage,
)
    requires
        call_ensures(handle_rpc_req_result::<H>, (s_slot, executor), answer),
    ensures
        executor@.tasks.contains_key(s_slot) ==> answer@ == MessageView::RpcRslt(
            s_slot,
            executor@.tasks[s_slot].result,
        ),
        !executor@.tasks.contains_key(s_slot) ==> answer@ == MessageView::ServerError(
            "no such s_slot"@,
        ),
{
}

/// A task that is launched is a task of the request that came in: it is on record with that
/// request, has nothing to show yet, and runs its method with its body. No other task changes.
pub proof fn launched_task_is_the_request<H: HandlerTrait>(
    c_slot: u16,
    request: RpcRequest,
    executor: &mut BoxcarExecutor<H>,
    subscriptions: &mut Subscriptions,
    resource_manager: &mut ResourceManager,
    reply: Reply,
    launch: Launch,
)
    requires
        call_ensures(
            message_handler::<H>,
            (
                Envelope { c_slot, message: BoxcarMessage::RpcReq(request) },
                executor,
                subscriptions,
                resource_manager,
            ),
            Some(reply),
        ),
        reply.launch == Some(launch),
    ensures
        reply.envelope.message@ == MessageView::RpcReqSlot(launch.s_slot),
        launch.method@ == request.method@,
        launch.body@ == request.body@,
        launch.bus.slot() == launch.s_slot,
        launch.handler < old(executor).handlers().len(),
        exists|m: &str|
            m@ == request.method@ && #[trigger] call_ensures(
                H::contains,
                (&old(executor).handlers()[launch.handler as int], m),
                true,
            ),
        forall|j: int|
            0 <= j < launch.handler ==> !runs(
                #[trigger] old(executor).handlers()[j],
                request.method@,
            ),
        !old(executor)@.slots.contains(launch.s_slot),
        final(executor)@.slots == old(executor)@.slots.push(launch.s_slot),
        final(executor)@.tasks.dom() == old(executor)@.tasks.dom().insert(launch.s_slot),
        final(executor)@.tasks[launch.s_slot].request == request@,
        final(executor)@.tasks[launch.s_slot].result is Pending,
        forall|t: u16|
            t != launch.s_slot && #[trigger] old(executor)@.tasks.contains_key(t)
                ==> final(executor)@.tasks[t] == old(executor)@.tasks[t],
        forall|t: u16|
            t != launch.s_slot ==> #[trigger] final(executor)@.holds(t) == old(executor)@.holds(t),
{
    assert(final(executor)@.tasks.dom() =~= old(executor)@.tasks.dom().insert(launch.s_slot));
    assert forall|j: int| 0 <= j < launch.handler implies !runs(
        #[trigger] old(executor).handlers()[j],
        request.method@,
    ) by {
        let handler = old(executor).handlers()[j];
        assert(crate::executor::answered(handler, request.method@, false));
    }
}

/// A task that is launched holds what its request asks for of every resource, and nothing else, and
/// that is missing in the pool.
pub proof fn launched_task_holds_its_resources<H: HandlerTrait>(
    c_slot: u16,
    request: RpcRequest,
    executor: &mut BoxcarExecutor<H>,
    subscriptions: &mut Subscriptions,
    resource_manager: &mut ResourceManager,
    reply: Reply,
    launch: Launch,
    name: Seq<char>,
)
    requires
        call_ensures(
            message_handler::<H>,
            (
                Envelope { c_slot, message: BoxcarMessage::RpcReq(request) },
                executor,
                subscriptions,
                resource_manager,
            ),
            Some(reply),
        ),
        reply.launch == Some(launch),
    ensures
        request.resources@.contains_key(name) ==> {
            &&& held(final(executor)@.holds(launch.s_slot), name) == request.resources@[name]
            &&& old(resource_manager)@.contains_key(name)
            &&& final(resource_manager)@[name] + request.resources@[name]
                == old(resource_manager)@[name]
        },
        !request.resources@.contains_key(name) ==> {
            &&& held(final(executor)@.holds(launch.s_slot), name) == 0
            &&& old(resource_manager)@.contains_key(name) ==> final(resource_manager)@[name]
                == old(resource_manager)@[name]
        },
        final(resource_manager)@.contains_key(name) <==> old(resource_manager)@.contains_key(name),
{
    crate::rcm::claims_cover_wants(request.resources.order(), request.resources@);
    let claims = final(executor)@.holds(launch.s_slot);
    assert(held(claims, name) == (if request.resources@.contains_key(name) {
        request.resources@[name] as nat
    } else {
        0
    }));
}

/// Once a task is over, everything that its request took out of the pool is back.
pub proof fn finished_task_gives_everything_back<H: HandlerTrait>(
    c_slot: u16,
    request: RpcRequest,
    executor: &mut BoxcarExecutor<H>,
    subscriptions: &mut Subscriptions,
    resource_manager: &mut ResourceManager,
    reply: Reply,
    launch: Launch,
    server: &mut Server<H>,
    name: Seq<char>,
)
    requires
        call_ensures(
            message_handler::<H>,
            (
                Envelope { c_slot, message: BoxcarMessage::RpcReq(request) },
                executor,
                subscriptions,
                resource_manager,
            ),
            Some(reply),
        ),
        reply.launch == Some(launch),
        old(server).executor == *final(executor),
        old(server).resource_manager == *final(resource_manager),
        call_ensures(Server::<H>::finish_task, (server, launch.s_slot), ()),
        old(resource_manager)@.contains_key(name),
    ensures
        final(server).resource_manager@.contains_key(name),
        final(server).resource_manager@[name] == old(resource_manager)@[name],
        held(final(server).executor@.holds(launch.s_slot), name) == 0,
        final(server).executor@.tasks == final(executor)@.tasks,
{
    launched_task_holds_its_resources(
        c_slot,
        request,
        executor,
        subscriptions,
        resource_manager,
        reply,
        launch,
        name,
    );
    assert(final(server).executor@.holds(launch.s_slot) =~= Seq::<ClaimView>::empty());
}

/// A request that asks for more than there is of some resource is refused, and changes nothing. The
/// error tells of a resource that the request asks for: that it is unknown, or how much was asked
/// for and how much there is. A request is refused so for no other reason.
pub proof fn unaffordable_requests_are_refused<H: HandlerTrait>(
    c_slot: u16,
    request: RpcRequest,
    executor: &mut BoxcarExecutor<H>,
    subscriptions: &mut Subscriptions,
    resource_manager: &mut ResourceManager,
    reply: Option<Reply>,
)
    requires
        call_ensures(
            message_handler::<H>,
            (
                Envelope { c_slot, message: BoxcarMessage::RpcReq(request) },
                executor,
                subscriptions,
                resource_manager,
            ),
            reply,
        ),
    ensures
        ({
            let pool = old(resource_manager)@;
            let wants = request.resources@;
            let refused = exists|name: Seq<char>| #[trigger]
                wants.contains_key(name) && !(pool.contains_key(name) && wants[name] <= pool[name]);
            &&& refused ==> {
                &&& reply is Some
                &&& reply->0.launch is None
                &&& reply->0.envelope.message@ matches MessageView::ResourceError(error) && exists|
                    name: Seq<char>,
                | #[trigger]
                    wants.contains_key(name) && (if pool.contains_key(name) {
                        wants[name] > pool[name] && error == ResourceError::NotEnough(
                            wants[name],
                            pool[name],
                        )
                    } else {
                        error == ResourceError::Unknown
                    })
                &&& final(executor)@ == old(executor)@
                &&& final(subscriptions)@ == old(subscriptions)@
                &&& final(resource_manager)@ == pool
            }
            &&& !refused ==> !(reply matches Some(r) && r.envelope.message@ is ResourceError)
        }),
{
    let pool = old(resource_manager)@;
    let wants = request.resources@;
    let order = request.resources.order();
    if !crate::rcm::all_affordable(pool, wants) && reply is Some {
        let error = reply->0.envelope.message@->ResourceError_0;
        let i = choose|i: int|
            #![trigger order[i]]
            {
                &&& 0 <= i < order.len()
                &&& forall|j: int|
                    0 <= j < i ==> crate::rcm::affordable(
                        pool,
                        #[trigger] order[j],
                        wants[order[j]],
                    )
                &&& !crate::rcm::affordable(pool, order[i], wants[order[i]])
                &&& error == crate::rcm::refusal(pool, order[i], wants[order[i]])
            };
        assert(order.contains(order[i]));
        assert(wants.contains_key(order[i]));
    }
    if crate::rcm::all_affordable(pool, wants) {
        assert forall|name: Seq<char>| #[trigger] wants.contains_key(name)
            implies pool.contains_key(
            name,
        ) && wants[name] <= pool[name] by {
            assert(crate::rcm::affordable(pool, name, wants[name]));
        }
    }
}

/// A request that can have its resources but that no handler runs is refused with an error, and
/// leaves the pool, the tasks and the subscriptions as they are. A request is refused so only if no
/// handler runs its method.
pub proof fn requests_without_handler_are_refused<H: HandlerTrait>(
    c_slot: u16,
    request: RpcRequest,
    executor: &mut BoxcarExecutor<H>,
    subscriptions: &mut Subscriptions,
    resource_manager: &mut ResourceManager,
    reply: Reply,
)
    requires
        call_ensures(
            message_handler::<H>,
            (
                Envelope { c_slot, message: BoxcarMessage::RpcReq(request) },
                executor,
                subscriptions,
                resource_manager,
            ),
            Some(reply),
        ),
        reply.launch is None,
    ensures
        reply.envelope.message@ == MessageView::ServerError(
            "unable to schedule request. no such handler"@,
        ) || reply.envelope.message@ is ResourceError,
        reply.envelope.message@ is ServerError ==> forall|j: int|
            0 <= j < old(executor).handlers().len() ==> !runs(
                #[trigger] old(executor).handlers()[j],
                request.method@,
            ),
        final(executor)@.tasks == old(executor)@.tasks,
        final(executor)@.claims == old(executor)@.claims,
        final(subscriptions)@ == old(subscriptions)@,
        final(resource_manager)@ == old(resource_manager)@,
{
    if reply.envelope.message@ is ServerError {
        assert forall|j: int| 0 <= j < old(executor).handlers().len() implies !runs(
            #[trigger] old(executor).handlers()[j],
            request.method@,
        ) by {
            let handler = old(executor).handlers()[j];
            assert(crate::executor::answered(handler, request.method@, false));
        }
    }
}

/// A request that asks to be subscribed to its task gets its reports on the slot that it came in
/// on, and one that does not ask changes no subscription.
pub proof fn requests_subscribe_if_asked<H: HandlerTrait>(
    c_slot: u16,
    request: RpcRequest,
    executor: &mut BoxcarExecutor<H>,
    subscriptions: &mut Subscriptions,
    resource_manager: &mut ResourceManager,
    reply: Reply,
    launch: Launch,
    s_slot: u16,
)
    requires
        call_ensures(
            message_handler::<H>,
            (
                Envelope { c_slot, message: BoxcarMessage::RpcReq(request) },
                executor,
                subscriptions,
                resource_manager,
            ),
            Some(reply),
        ),
        reply.launch == Some(launch),
    ensures
        request.subscribe ==> final(subscriptions)@.contains_key(launch.s_slot)
            && final(subscriptions)@[launch.s_slot] == c_slot,
        s_slot != launch.s_slot || !request.subscribe ==> {
            &&& final(subscriptions)@.contains_key(s_slot) <==> old(subscriptions)@.contains_key(
                s_slot,
            )
            &&& old(subscriptions)@.contains_key(s_slot)
                ==> final(subscriptions)@[s_slot] == old(subscriptions)@[s_slot]
        },
{
}

/// The reply to a request is the answer to it, and subscribes the client to the task that is to run
/// if that was asked for.
pub proof fn replies_carry_answers(
    answer: Option<Answer>,
    c_slot: u16,
    subscribe: bool,
    subscriptions: &mut Subscriptions,
    reply: Option<Reply>,
    s_slot: u16,
)
    requires
        call_ensures(reply_in, (answer, c_slot, subscribe, subscriptions), reply),
    ensures
        reply is Some <==> answer is Some,
        reply is Some ==> {
            &&& reply->0.envelope.c_slot == c_slot
            &&& reply->0.envelope.message == answer->0.message
            &&& reply->0.launch == answer->0.launch
        },
        ({
            let subscribes = subscribe && answer is Some && answer->0.launch is Some
                && answer->0.launch->0.s_slot == s_slot;
            &&& subscribes ==> final(subscriptions)@.contains_key(s_slot)
                && final(subscriptions)@[s_slot] == c_slot
            &&& !subscribes
                ==> final(subscriptions)@.contains_key(s_slot)
                == old(subscriptions)@.contains_key(s_slot)
            &&& !subscribes && old(subscriptions)@.contains_key(s_slot)
                ==> final(subscriptions)@[s_slot] == old(subscriptions)@[s_slot]
        }),
{
}

/// A client that subscribes to slots is subscribed to each of them, from the slot that it asked
/// from unless it was subscribed already, and to no others than before. It is told the result that
/// is on record for the first one, or gets an error if one of them has no task.
pub proof fn subscribing_to_slots<H: HandlerTrait>(
    c_slot: u16,
    slots: Vec<u16>,
    executor: &mut BoxcarExecutor<H>,
    subscriptions: &mut Subscriptions,
    resource_manager: &mut ResourceManager,
    reply: Option<Reply>,
    s_slot: u16,
)
    requires
        call_ensures(
            message_handler::<H>,
            (
                Envelope { c_slot, message: BoxcarMessage::Sub(slots) },
                executor,
                subscriptions,
                resource_manager,
            ),
            reply,
        ),
    ensures
        reply is Some,
        reply->0.launch is None,
        final(subscriptions)@.contains_key(s_slot) <==> (old(subscriptions)@.contains_key(s_slot)
            || slots@.contains(s_slot)),
        old(subscriptions)@.contains_key(s_slot)
            ==> final(subscriptions)@[s_slot] == old(subscriptions)@[s_slot],
        !old(subscriptions)@.contains_key(s_slot) && slots@.contains(s_slot)
            ==> final(subscriptions)@[s_slot] == c_slot,
        slots@.contains(s_slot) && !old(executor)@.tasks.contains_key(s_slot)
            ==> reply->0.envelope.message@ == MessageView::ServerError("no such s_slot"@),
        slots@.len() == 0 ==> reply->0.envelope.message@ == MessageView::ServerError(
            "no such s_slot"@,
        ),
        slots@.len() > 0 && (forall|i: int|
            0 <= i < slots@.len() ==> old(executor)@.tasks.contains_key(#[trigger] slots@[i]))
            ==> reply->0.envelope.message@ == MessageView::RpcRslt(
            slots@[0],
            old(executor)@.tasks[slots@[0]].result,
        ),
        final(executor)@ == old(executor)@,
        final(resource_manager)@ == old(resource_manager)@,
{
}

/// A client that unsubscribes from slots is subscribed to none of them any more, and goes on being
/// subscribed to the others. It is told if it was subscribed to any of them.
pub proof fn unsubscribing_from_slots<H: HandlerTrait>(
    c_slot: u16,
    slots: Vec<u16>,
    executor: &mut BoxcarExecutor<H>,
    subscriptions: &mut Subscriptions,
    resource_manager: &mut ResourceManager,
    reply: Option<Reply>,
    s_slot: u16,
)
    requires
        call_ensures(
            message_handler::<H>,
            (
                Envelope { c_slot, message: BoxcarMessage::UnSub(slots) },
                executor,
                subscriptions,
                resource_manager,
            ),
            reply,
        ),
    ensures
        reply is Some,
        reply->0.launch is None,
        final(subscriptions)@.contains_key(s_slot) <==> (old(subscriptions)@.contains_key(s_slot)
            && !slots@.contains(s_slot)),
        final(subscriptions)@.contains_key(s_slot)
            ==> final(subscriptions)@[s_slot] == old(subscriptions)@[s_slot],
        reply->0.envelope.message@ matches MessageView::SubOpFin(changed)
            && (slots@.contains(s_slot)
            && old(subscriptions)@.contains_key(s_slot) ==> changed),
        reply->0.envelope.message@ == MessageView::SubOpFin(true) ==> exists|s: u16| #[trigger]
            slots@.contains(s) && old(subscriptions)@.contains_key(s),
        final(executor)@ == old(executor)@,
        final(resource_manager)@ == old(resource_manager)@,
{
}

/// Subscribing on its own tells if a subscription was added, and unsubscribing if one was ended.
pub proof fn changes_of_subscriptions_are_told(
    slots: &Vec<u16>,
    c_slot: u16,
    added: &mut Subscriptions,
    sub: BoxcarMessage,
    ended: &mut Subscriptions,
    unsub: BoxcarMessage,
)
    requires
        call_ensures(handle_sub, (slots, added, c_slot), sub),
        call_ensures(handle_unsub, (slots, ended), unsub),
    ensures
        sub@ is SubOpFin && unsub@ is SubOpFin,
        sub@ == MessageView::SubOpFin(false) <==> final(added)@ == old(added)@,
        unsub@ == MessageView::SubOpFin(false) <==> final(ended)@ == old(ended)@,
        forall|s: u16| #[trigger] slots@.contains(s) ==> final(added)@.contains_key(s),
        forall|s: u16| #[trigger] slots@.contains(s) ==> !final(ended)@.contains_key(s),
{
    let some_added = exists|s: u16| #[trigger]
        slots@.contains(s) && !old(added)@.contains_key(s);
    if some_added {
        let s = choose|s: u16| #[trigger] slots@.contains(s) && !old(added)@.contains_key(s);
        assert(final(added)@.contains_key(s));
    } else {
        assert(final(added)@ =~= old(added)@);
    }
    let some_ended = exists|s: u16| #[trigger] slots@.contains(s) && old(ended)@.contains_key(s);
    if some_ended {
        let s = choose|s: u16| #[trigger] slots@.contains(s) && old(ended)@.contains_key(s);
        assert(!final(ended)@.contains_key(s));
    } else {
        assert(final(ended)@ =~= old(ended)@);
    }
}

/// A ping is answered with a pong of the same number, a pong is an error, and a client that hangs
/// up is told so and subscribed to nothing any more. Nothing else changes.
pub proof fn simple_messages<H: HandlerTrait>(
    envelope: Envelope,
    executor: &mut BoxcarExecutor<H>,
    subscriptions: &mut Subscriptions,
    resource_manager: &mut ResourceManager,
    reply: Option<Reply>,
)
    requires
        call_ensures(
            message_handler::<H>,
            (envelope, executor, subscriptions, resource_manager),
            reply,
        ),
        envelope.message is Ping || envelope.message is Pong || envelope.message is Hangup,
    ensures
        reply is Some,
        reply->0.launch is None,
        envelope.message matches BoxcarMessage::Ping(num) ==> reply->0.envelope.message@
            == MessageView::Pong(num),
        envelope.message is Pong ==> reply->0.envelope.message@ == MessageView::ServerError(
            "unsupported message"@,
        ),
        envelope.message is Hangup ==> reply->0.envelope.message@ is Hangup,
        envelope.message is Hangup
            ==> forall|s: u16| !#[trigger] final(subscriptions)@.contains_key(s),
        !(envelope.message is Hangup) ==> final(subscriptions)@ == old(subscriptions)@,
        final(executor)@ == old(executor)@,
        final(resource_manager)@ == old(resource_manager)@,
{
}

/// A ping is answered with a pong of the same number, and a hangup with a hangup.
pub proof fn simple_answers(
    num: u8,
    pong: BoxcarMessage,
    subscriptions: &mut Subscriptions,
    hangup: BoxcarMessage,
)
    requires
        call_ensures(handle_ping, (num,), pong),
        call_ensures(handle_hangup, (subscriptions,), hangup),
    ensures
        pong@ == MessageView::Pong(num),
        hangup@ is Hangup,
        forall|s: u16| !#[trigger] final(subscriptions)@.contains_key(s),
{
}

/// What a task reports is passed on to the client if, and only if, it is subscribed to the task:
/// the very result, under the task's slot, on the slot of the subscription.
pub proof fn reports_are_passed_on(
    subscriptions: &Subscriptions,
    s_slot: u16,
    result: RpcResult,
    envelope: Option<Envelope>,
)
    requires
        call_ensures(Subscriptions::relay, (subscriptions, s_slot, result), envelope),
    ensures
        envelope is Some <==> subscriptions@.contains_key(s_slot),
        envelope is Some ==> envelope->0.c_slot == subscriptions@[s_slot],
        envelope is Some ==> envelope->0.message@ == MessageView::RpcRslt(s_slot, result@),
{
}

/// A new connection is subscribed to nothing, and a subscription that is put in is there, with the
/// others as they were.
pub proof fn subscriptions_are_kept(
    fresh: Subscriptions,
    subscriptions: &mut Subscriptions,
    s_slot: u16,
    c_slot: u16,
    other: u16,
)
    requires
        call_ensures(Subscriptions::new, (), fresh),
        call_ensures(Subscriptions::insert, (subscriptions, s_slot, c_slot), ()),
        other != s_slot,
    ensures
        !fresh@.contains_key(s_slot),
        final(subscriptions)@.contains_key(s_slot),
        final(subscriptions)@[s_slot] == c_slot,
        final(subscriptions)@.contains_key(other) == old(subscriptions)@.contains_key(other),
        old(subscriptions)@.contains_key(other)
            ==> final(subscriptions)@[other] == old(subscriptions)@[other],
{
}

/// A server listens for local clients, runs nothing and has no resources until it is told
/// otherwise.
pub proof fn new_server_is_empty<H>(server: Server<H>, name: Seq<char>, s_slot: u16)
    requires
        call_ensures(Server::<H>::new, (), server),
    ensures
        server.bind.port == 9930,
        server.executor.handlers().len() == 0,
        server.executor@.slots.len() == 0,
        !server.executor@.tasks.contains_key(s_slot),
        !server.resource_manager@.contains_key(name),
{
}

/// A task can be finished exactly if what it holds of each resource and what is free of it can be
/// counted together.
pub proof fn finishable_tasks_can_be_counted<H>(server: &Server<H>, s_slot: u16, yes: bool)
    requires
        call_ensures(Server::<H>::can_finish, (server, s_slot), yes),
    ensures
        yes <==> forall|name: Seq<char>| #[trigger]
            server.resource_manager@.contains_key(name) ==> server.resource_manager@[name] + held(
                server.executor@.holds(s_slot),
                name,
            ) <= usize::MAX,
{
}

/// Finishing a task gives each resource exactly what the task held of it, takes the task's claims
/// away, and leaves the tasks, their results and the claims of the others as they are.
pub proof fn finishing_moves_what_was_held<H>(
    server: &mut Server<H>,
    s_slot: u16,
    name: Seq<char>,
    other: u16,
)
    requires
        call_ensures(Server::<H>::finish_task, (server, s_slot), ()),
        crate::rcm::fits(old(server).resource_manager@, old(server).executor@.holds(s_slot)),
        other != s_slot,
    ensures
        final(server).resource_manager@.contains_key(name)
            == old(server).resource_manager@.contains_key(name),
        old(server).resource_manager@.contains_key(name) ==> final(server).resource_manager@[name]
            == old(server).resource_manager@[name] + held(
            old(server).executor@.holds(s_slot),
            name,
        ),
        final(server).executor@.holds(s_slot).len() == 0,
        final(server).executor@.holds(other) == old(server).executor@.holds(other),
        final(server).executor@.tasks == old(server).executor@.tasks,
        final(server).executor@.slots == old(server).executor@.slots,
{
    if old(server).resource_manager@.contains_key(name) {
        assert(old(server).resource_manager@[name] + held(
            old(server).executor@.holds(s_slot),
            name,
        ) <= usize::MAX);
    }
}

/// A server has an answer to requests, questions for results, subscriptions and their ends, pings,
/// pongs and hangups, whatever they hold, and to nothing else.
pub proof fn messages_with_an_answer(message: &BoxcarMessage, yes: bool)
    requires
        call_ensures(is_answerable, (message,), yes),
    ensures
        yes <==> message is RpcReq || message is RpcReqRslt || message is Sub || message is UnSub
            || message is Ping || message is Pong || message is Hangup,
{
}

/// Any message that has an answer can be handled, by any executor that hands out no slot twice, has
/// a slot for each task, and keeps claims for tasks only.
pub proof fn messages_can_be_handled<H: HandlerTrait>(
    envelope: Envelope,
    executor: &mut BoxcarExecutor<H>,
    subscriptions: &mut Subscriptions,
    resource_manager: &mut ResourceManager,
)
    requires
        envelope.message is RpcReq || envelope.message is RpcReqRslt || envelope.message is Sub
            || envelope.message is UnSub || envelope.message is Ping || envelope.message is Pong
            || envelope.message is Hangup,
        old(executor)@.slots.no_duplicates(),
        forall|s: u16| #[trigger]
            old(executor)@.tasks.contains_key(s) ==> old(executor)@.slots.contains(s),
        forall|s: u16| #[trigger]
            old(executor)@.claims.contains_key(s) ==> old(executor)@.tasks.contains_key(s),
    ensures
        call_requires(
            message_handler::<H>,
            (envelope, executor, subscriptions, resource_manager),
        ),
{
}

/// Any request can be answered for which the claims can be given back.
pub proof fn requests_can_be_answered<H: HandlerTrait>(
    request: RpcRequest,
    executor: &mut BoxcarExecutor<H>,
    claims: Vec<Claim>,
    resource_manager: &mut ResourceManager,
)
    requires
        old(executor).wf(),
        forall|name: Seq<char>| #[trigger]
            old(resource_manager)@.contains_key(name) ==> old(resource_manager)@[name] + held(
                claim_views(claims@),
                name,
            ) <= usize::MAX,
    ensures
        call_requires(handle_rpc_req::<H>, (request, executor, claims, resource_manager)),
{
}

/// What claims hold is the sum of their amounts: nothing without claims, and one more claim adds
/// its amount to its resource and to no other.
pub proof fn claims_are_summed_up(claims: Seq<ClaimView>, claim: ClaimView, name: Seq<char>)
    ensures
        held(Seq::<ClaimView>::empty(), name) == 0,
        held(claims.push(claim), claim.resource) == held(claims, claim.resource) + claim.amount,
        name != claim.resource ==> held(claims.push(claim), name) == held(claims, name),
{
    held_push(claims, claim);
}

} // verus!
