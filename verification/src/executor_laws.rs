//! What an executor does, in terms of its tasks.
use crate::executor::{BoxcarExecutor, BusWrapper, ExecuteError, Launch, Refused};
use crate::message::{HandlerTrait, RpcRequest, RpcResult};
use crate::rcm::{claim_views, Claim};
use crate::server_laws::{no_slot_was_drawn, runs};
use crate::slots::{all_draws_missed, draw_from, random_draw, vacant_draw_was_found};
use vstd::prelude::*;

verus! {

/// A slot is handed out that was not handed out before, unless every draw missed.
pub proof fn slots_are_found<H>(executor: &mut BoxcarExecutor<H>, slot: Option<u16>)
    requires
        call_ensures(BoxcarExecutor::<H>::assign_slot, (executor,), slot),
    ensures
        slot is None
            ==> no_slot_was_drawn(old(executor)@.slots) && final(executor)@ == old(executor)@,
        slot is Some
            ==> !old(executor)@.slots.contains(slot->0) && final(executor)@.slots
            == old(executor)@.slots.push(slot->0),
        final(executor)@.tasks == old(executor)@.tasks,
        final(executor)@.claims == old(executor)@.claims,
{
    if slot is None {
        let draws = all_draws_missed(random_draw, old(executor)@.slots);
        assert(draws.len() == 1026);
    }
}

/// Drawing from a source takes the first draw that is not in use, and gives up only after all draws
/// missed.
pub proof fn first_vacant_draw_is_used<F: Fn(u32) -> u16>(
    slots: &mut Vec<u16>,
    source: F,
    slot: Option<u16>,
) -> (draws: Seq<u16>)
    requires
        call_ensures(draw_from::<F>, (slots, source), slot),
    ensures
        forall|i: int|
            0 <= i < draws.len() ==> call_ensures(source, (i as u32,), #[trigger] draws[i]),
        slot is None ==> draws.len() == 1026 && final(slots)@ == old(slots)@ && forall|i: int|
            0 <= i < draws.len() ==> old(slots)@.contains(#[trigger] draws[i]),
        slot is Some ==> {
            &&& 0 < draws.len() <= 1026
            &&& draws[draws.len() - 1] == slot->0
            &&& !old(slots)@.contains(slot->0)
            &&& final(slots)@ == old(slots)@.push(slot->0)
            &&& forall|i: int| 0 <= i < draws.len() - 1
                ==> old(slots)@.contains(#[trigger] draws[i])
        },
{
    match slot {
        None => all_draws_missed(source, old(slots)@),
        Some(s) => vacant_draw_was_found(source, old(slots)@, s),
    }
}

/// The handler that is found is the first one that says that it runs the method. None is found only
/// if no handler runs it.
pub proof fn first_handler_is_found<H: HandlerTrait>(
    executor: &BoxcarExecutor<H>,
    method: &String,
    found: Option<usize>,
)
    requires
        call_ensures(BoxcarExecutor::<H>::find_handler, (executor, method), found),
    ensures
        found is Some ==> {
            &&& found->0 < executor.handlers().len()
            &&& exists|m: &str|
                m@ == method@ && #[trigger] call_ensures(
                    H::contains,
                    (&executor.handlers()[found->0 as int], m),
                    true,
                )
        },
        forall|j: int|
            0 <= j < executor.handlers().len() && (found is None || j < found->0) ==> !runs(
                #[trigger] executor.handlers()[j],
                method@,
            ),
{
    assert forall|j: int|
        0 <= j < executor.handlers().len() && (found is None || j < found->0) implies !runs(
        #[trigger] executor.handlers()[j],
        method@,
    ) by {
        let handler = executor.handlers()[j];
        assert(crate::executor::answered(handler, method@, false));
    }
}

/// A request is scheduled in a slot that no task had before, unless every draw missed or no handler
/// runs its method. A request that is not scheduled gets its claims back and leaves the tasks as
/// they are.
pub proof fn requests_are_scheduled<H: HandlerTrait>(
    executor: &mut BoxcarExecutor<H>,
    request: RpcRequest,
    claims: Vec<Claim>,
    launch: Result<Launch, Refused>,
)
    requires
        call_ensures(BoxcarExecutor::<H>::execute_task, (executor, request, claims), launch),
    ensures
        launch is Ok ==> {
            let s_slot = launch->Ok_0.s_slot;
            &&& !old(executor)@.slots.contains(s_slot)
            &&& final(executor)@.slots == old(executor)@.slots.push(s_slot)
            &&& final(executor)@.tasks.contains_key(s_slot)
            &&& final(executor)@.tasks[s_slot].request == request@
            &&& final(executor)@.tasks[s_slot].result is Pending
            &&& final(executor)@.holds(s_slot) == claim_views(claims@)
            &&& launch->Ok_0.method@ == request.method@
            &&& launch->Ok_0.body@ == request.body@
            &&& forall|t: u16|
                t != s_slot && #[trigger] old(executor)@.tasks.contains_key(t)
                    ==> final(executor)@.tasks.contains_key(t) && final(executor)@.tasks[t]
                    == old(executor)@.tasks[t]
        },
        launch is Err ==> {
            &&& launch->Err_0.claims == claims
            &&& final(executor)@.tasks == old(executor)@.tasks
            &&& final(executor)@.claims == old(executor)@.claims
            &&& launch->Err_0.error == ExecuteError::NoSlot ==> no_slot_was_drawn(
                old(executor)@.slots,
            )
            &&& launch->Err_0.error == ExecuteError::NoHandler ==> forall|j: int|
                0 <= j < old(executor).handlers().len() ==> !runs(
                    #[trigger] old(executor).handlers()[j],
                    request.method@,
                )
        },
        final(executor).handlers() == old(executor).handlers(),
{
    if launch is Err {
        if launch->Err_0.error == ExecuteError::NoSlot {
            let draws = all_draws_missed(random_draw, old(executor)@.slots);
            assert(draws.len() == 1026);
        } else {
            assert forall|j: int| 0 <= j < old(executor).handlers().len() implies !runs(
                #[trigger] old(executor).handlers()[j],
                request.method@,
            ) by {
                let handler = old(executor).handlers()[j];
                assert(crate::executor::answered(handler, request.method@, false));
            }
        }
    }
}

/// A request that is given a slot and a handler runs there, with its method, its body and its
/// claims. Without one of them it is refused, gets its claims back, and changes nothing.
pub proof fn requests_run_where_they_are_put<H>(
    executor: &mut BoxcarExecutor<H>,
    slot: Option<u16>,
    found: Option<usize>,
    request: RpcRequest,
    claims: Vec<Claim>,
    launch: Result<Launch, Refused>,
    other: u16,
)
    requires
        call_ensures(
            BoxcarExecutor::<H>::execute_in,
            (executor, slot, found, request, claims),
            launch,
        ),
        slot != Some(other),
    ensures
        launch is Ok <==> slot is Some && found is Some,
        launch is Ok ==> {
            &&& launch->Ok_0.s_slot == slot->0
            &&& launch->Ok_0.handler == found->0
            &&& launch->Ok_0.method@ == request.method@
            &&& launch->Ok_0.body@ == request.body@
            &&& final(executor)@.tasks.contains_key(slot->0)
            &&& final(executor)@.tasks[slot->0].request == request@
            &&& final(executor)@.tasks[slot->0].result is Pending
            &&& final(executor)@.holds(slot->0) == claim_views(claims@)
        },
        launch is Err ==> {
            &&& launch->Err_0.claims == claims
            &&& launch->Err_0.error == ExecuteError::NoSlot <==> slot is None
            &&& final(executor)@ == old(executor)@
        },
        final(executor)@.slots == old(executor)@.slots,
        final(executor)@.tasks.contains_key(other) == old(executor)@.tasks.contains_key(other),
        old(executor)@.tasks.contains_key(other)
            ==> final(executor)@.tasks[other] == old(executor)@.tasks[other],
        final(executor)@.holds(other) == old(executor)@.holds(other),
{
}

/// Scheduling in a slot runs the request there if a handler was found.
pub proof fn scheduling_needs_a_handler<H>(
    executor: &mut BoxcarExecutor<H>,
    s_slot: u16,
    found: Option<usize>,
    request: RpcRequest,
    claims: Vec<Claim>,
    launch: Result<Launch, Refused>,
)
    requires
        call_ensures(
            BoxcarExecutor::<H>::schedule,
            (executor, s_slot, found, request, claims),
            launch,
        ),
    ensures
        launch is Ok <==> found is Some,
        launch is Ok ==> {
            &&& launch->Ok_0.s_slot == s_slot
            &&& launch->Ok_0.handler == found->0
            &&& launch->Ok_0.method@ == request.method@
            &&& launch->Ok_0.body@ == request.body@
            &&& final(executor)@.tasks.contains_key(s_slot)
            &&& final(executor)@.tasks[s_slot].request == request@
            &&& final(executor)@.tasks[s_slot].result is Pending
            &&& final(executor)@.holds(s_slot) == claim_views(claims@)
        },
        launch is Err ==> launch->Err_0.claims == claims && final(executor)@ == old(executor)@,
{
}

/// What a running task reports goes out under the slot that it was launched in.
pub proof fn tasks_report_under_their_slot<H>(
    executor: &mut BoxcarExecutor<H>,
    slot: Option<u16>,
    found: Option<usize>,
    request: RpcRequest,
    claims: Vec<Claim>,
    launch: Launch,
    message: RpcResult,
    update: (u16, RpcResult),
)
    requires
        call_ensures(
            BoxcarExecutor::<H>::execute_in,
            (executor, slot, found, request, claims),
            Ok(launch),
        ),
        call_ensures(BusWrapper::send, (&launch.bus, message), update),
    ensures
        update.0 == launch.s_slot,
        update.1 == message,
{
}

/// A slot is found for a request, and then the handler that runs its method, unless every draw
/// missed.
pub proof fn requests_are_placed<H: HandlerTrait>(
    executor: &mut BoxcarExecutor<H>,
    method: &String,
    placed: (Option<u16>, Option<usize>),
)
    requires
        call_ensures(BoxcarExecutor::<H>::place, (executor, method), placed),
    ensures
        placed.0 is None
            ==> no_slot_was_drawn(old(executor)@.slots) && final(executor)@ == old(executor)@,
        placed.0 is Some
            ==> !old(executor)@.slots.contains(placed.0->0) && final(executor)@.slots
            == old(executor)@.slots.push(placed.0->0),
        placed.0 is Some && placed.1 is None ==> forall|j: int|
            0 <= j < old(executor).handlers().len() ==> !runs(
                #[trigger] old(executor).handlers()[j],
                method@,
            ),
        final(executor)@.tasks == old(executor)@.tasks,
        final(executor)@.claims == old(executor)@.claims,
{
    if placed.0 is None {
        let draws = all_draws_missed(random_draw, old(executor)@.slots);
        assert(draws.len() == 1026);
    } else if placed.1 is None {
        assert forall|j: int| 0 <= j < old(executor).handlers().len() implies !runs(
            #[trigger] old(executor).handlers()[j],
            method@,
        ) by {
            let handler = old(executor).handlers()[j];
            assert(crate::executor::answered(handler, method@, false));
        }
    }
}

/// What a task reports is put on record, whatever it is, in place of what was there. The task's
/// request, the other tasks and what they hold do not change.
pub proof fn reports_are_recorded<H>(
    executor: &mut BoxcarExecutor<H>,
    s_slot: u16,
    result: RpcResult,
    known: bool,
    other: u16,
)
    requires
        call_ensures(BoxcarExecutor::<H>::record, (executor, s_slot, result), known),
        other != s_slot,
    ensures
        known == old(executor)@.tasks.contains_key(s_slot),
        final(executor)@.tasks.contains_key(s_slot) == known,
        known ==> final(executor)@.tasks[s_slot].result == result@,
        known ==> final(executor)@.tasks[s_slot].request == old(executor)@.tasks[s_slot].request,
        final(executor)@.tasks.contains_key(other) == old(executor)@.tasks.contains_key(other),
        old(executor)@.tasks.contains_key(other)
            ==> final(executor)@.tasks[other] == old(executor)@.tasks[other],
        final(executor)@.slots == old(executor)@.slots,
        final(executor)@.claims == old(executor)@.claims,
{
}

/// What is on record of a task can be read, whatever it is.
pub proof fn records_are_read<H>(
    executor: &BoxcarExecutor<H>,
    s_slot: u16,
    result: Option<RpcResult>,
    yes: bool,
)
    requires
        call_ensures(BoxcarExecutor::<H>::result, (executor, s_slot), result),
        call_ensures(BoxcarExecutor::<H>::has_task, (executor, s_slot), yes),
    ensures
        yes == executor@.tasks.contains_key(s_slot),
        result is Some <==> executor@.tasks.contains_key(s_slot),
        result is Some ==> result->0@ == executor@.tasks[s_slot].result,
{
}

/// A task that is over hands out what it held, and holds nothing any more. Its result stays on
/// record, and the other tasks do not change.
pub proof fn finished_tasks_hand_out_their_claims<H>(
    executor: &mut BoxcarExecutor<H>,
    s_slot: u16,
    claims: Vec<Claim>,
    other: u16,
)
    requires
        call_ensures(BoxcarExecutor::<H>::finish_task, (executor, s_slot), claims),
        other != s_slot,
    ensures
        claim_views(claims@) == old(executor)@.holds(s_slot),
        final(executor)@.holds(s_slot).len() == 0,
        final(executor)@.holds(other) == old(executor)@.holds(other),
        final(executor)@.tasks == old(executor)@.tasks,
        final(executor)@.slots == old(executor)@.slots,
{
}

/// What an executor keeps to: no slot was handed out twice, every task has a slot, and only tasks
/// hold claims. It keeps to nothing else.
pub proof fn executors_are_sound<H>(executor: &BoxcarExecutor<H>)
    ensures
        executor.wf() <==> {
            &&& forall|i: int, j: int|
                0 <= i < j < executor@.slots.len() ==> executor@.slots[i] != executor@.slots[j]
            &&& forall|s: u16| #[trigger]
                executor@.tasks.contains_key(s) ==> executor@.slots.contains(s)
            &&& forall|s: u16| #[trigger]
                executor@.claims.contains_key(s) ==> executor@.tasks.contains_key(s)
        },
{
}

/// What a task holds is what is kept for it, and nothing if nothing is.
pub proof fn claims_are_held_by_tasks<H>(
    executor: &BoxcarExecutor<H>,
    s_slot: u16,
    claims: Option<&Vec<Claim>>,
)
    requires
        call_ensures(BoxcarExecutor::<H>::held_claims, (executor, s_slot), claims),
    ensures
        executor@.claims.contains_key(s_slot) ==> executor@.holds(s_slot)
            == executor@.claims[s_slot],
        !executor@.claims.contains_key(s_slot) ==> executor@.holds(s_slot).len() == 0,
        claims is Some ==> claim_views(claims->0@) == executor@.holds(s_slot),
        claims is None ==> executor@.holds(s_slot).len() == 0,
{
}

/// Handlers are kept in the order in which they were added, and counted.
pub proof fn handlers_are_kept<H>(
    fresh: BoxcarExecutor<H>,
    executor: &mut BoxcarExecutor<H>,
    handle: H,
    later: &BoxcarExecutor<H>,
    count: usize,
    place: usize,
    handler: Option<&H>,
)
    requires
        call_ensures(BoxcarExecutor::<H>::new, (), fresh),
        call_ensures(BoxcarExecutor::<H>::add_handler, (executor, handle), ()),
        *later == *final(executor),
        call_ensures(BoxcarExecutor::<H>::num_handlers, (later,), count),
        call_ensures(BoxcarExecutor::<H>::handler, (later, place), handler),
    ensures
        fresh.handlers().len() == 0 && fresh@.slots.len() == 0,
        forall|s: u16| !#[trigger] fresh@.tasks.contains_key(s),
        count == old(executor).handlers().len() + 1,
        handler is Some <==> place < count,
        place + 1 == count ==> *(handler->0) == handle,
        place + 1 < count ==> *(handler->0) == old(executor).handlers()[place as int],
        final(executor)@ == old(executor)@,
{
}

} // verus!
