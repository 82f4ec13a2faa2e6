//! What holds of a pool and of a server over their whole lives, whatever is asked of them.
use crate::executor::{executor_stays_well_formed, Event, ExecutorView};
use crate::message::{BoxcarMessage, Envelope, HandlerTrait};
use crate::rcm::{
    added, affordable, all_affordable, claim_fits, claimed, claims_conserve, claims_cover_wants,
    covers, fits, granted, held, held_push, released, returned, wanted, ClaimView, Pool,
};
use crate::server::{message_handled, Reply, ServerState};
use vstd::prelude::*;

verus! {

/// What can happen to a pool.
pub enum PoolEvent {
    /// An amount of a resource was added
    Added { name: Seq<char>, amount: usize },
    /// A claim was asked for. It is made only if there is enough
    Asked { name: Seq<char>, amount: usize },
    /// One of the live claims was released
    Released { at: int },
}

/// A pool, and the live claims on it.
#[verifier::ext_equal]
pub struct Holdings {
    pub pool: Pool,
    pub live: Seq<ClaimView>,
}

impl Holdings {
    /// The event can happen: only live claims are released.
    pub open spec fn admits(self, event: PoolEvent) -> bool {
        match event {
            PoolEvent::Released { at } => 0 <= at < self.live.len(),
            _ => true,
        }
    }

    /// The state once the event happened.
    pub open spec fn after(self, event: PoolEvent) -> Holdings {
        match event {
            PoolEvent::Added { name, amount } => Holdings {
                pool: added(self.pool, name, amount),
                ..self
            },
            PoolEvent::Asked { name, amount } => if affordable(self.pool, name, amount) {
                Holdings {
                    pool: claimed(self.pool, name, amount),
                    live: self.live.push(ClaimView { resource: name, amount }),
                }
            } else {
                self
            },
            PoolEvent::Released { at } => Holdings {
                pool: released(self.pool, self.live[at]),
                live: self.live.remove(at),
            },
        }
    }
}

/// The state of a pool that was empty at first, once the events happened, one after the other.
pub open spec fn holdings(events: Seq<PoolEvent>) -> Holdings
    decreases events.len(),
{
    if events.len() == 0 {
        Holdings { pool: Map::empty(), live: Seq::empty() }
    } else {
        holdings(events.drop_last()).after(events.last())
    }
}

/// The events can happen to a pool that is empty at first, one after the other.
pub open spec fn possible(events: Seq<PoolEvent>) -> bool
    decreases events.len(),
{
    events.len() == 0 || (possible(events.drop_last()) && holdings(events.drop_last()).admits(
        events.last(),
    ))
}

/// How much of `name` was added.
pub open spec fn sum_added(events: Seq<PoolEvent>, name: Seq<char>) -> nat
    decreases events.len(),
{
    if events.len() == 0 {
        0
    } else {
        sum_added(events.drop_last(), name) + match events.last() {
            PoolEvent::Added { name: n, amount } => if n == name {
                amount as nat
            } else {
                0
            },
            _ => 0,
        }
    }
}

/// Giving up a claim takes what it holds out of the sum, and nothing else.
proof fn held_without(claims: Seq<ClaimView>, at: int, name: Seq<char>)
    requires
        0 <= at < claims.len(),
    ensures
        held(claims, name) == held(claims.remove(at), name) + (if claims[at].resource == name {
            claims[at].amount as nat
        } else {
            0
        }),
    decreases claims.len(),
{
    let fewer = claims.drop_last();
    if at == fewer.len() {
        assert(claims.remove(at) =~= fewer);
    } else {
        held_without(fewer, at, name);
        assert(claims.remove(at).drop_last() =~= fewer.remove(at));
        assert(claims.remove(at).last() == claims.last());
    }
}

/// Whatever is added, claimed and released, in whatever order: what is free of a resource and what
/// the live claims on it hold add up to what was added of it. A resource that is not in the pool
/// was never added, and nothing of it is held.
pub proof fn pool_holds_what_was_added(events: Seq<PoolEvent>, name: Seq<char>)
    requires
        possible(events),
        sum_added(events, name) <= usize::MAX,
    ensures
        if holdings(events).pool.contains_key(name) {
            holdings(events).pool[name] + held(holdings(events).live, name) == sum_added(
                events,
                name,
            )
        } else {
            held(holdings(events).live, name) == 0 && sum_added(events, name) == 0
        },
    decreases events.len(),
{
    if events.len() > 0 {
        let before = holdings(events.drop_last());
        pool_holds_what_was_added(events.drop_last(), name);
        match events.last() {
            PoolEvent::Asked { name: n, amount } => {
                held_push(before.live, ClaimView { resource: n, amount });
            },
            PoolEvent::Released { at } => {
                held_without(before.live, at, name);
            },
            _ => {},
        }
    }
}

/// A live claim can be released at any time.
pub proof fn live_claims_can_be_released(events: Seq<PoolEvent>, at: int)
    requires
        possible(events),
        0 <= at < holdings(events).live.len(),
        sum_added(events, holdings(events).live[at].resource) <= usize::MAX,
    ensures
        claim_fits(holdings(events).pool, holdings(events).live[at]),
{
    let now = holdings(events);
    let name = now.live[at].resource;
    pool_holds_what_was_added(events, name);
    held_without(now.live, at, name);
}

/// The tasks of a server, and what is free of its resources.
#[verifier::ext_equal]
pub struct Ledger {
    pub executor: ExecutorView,
    pub pool: Pool,
}

pub open spec fn ledger(state: ServerState) -> Ledger {
    Ledger { executor: state.executor, pool: state.pool }
}

/// How much of `name` the tasks in `slots` hold together.
pub open spec fn in_use(executor: ExecutorView, slots: Seq<u16>, name: Seq<char>) -> nat
    decreases slots.len(),
{
    if slots.len() == 0 {
        0
    } else {
        in_use(executor, slots.drop_last(), name) + held(executor.holds(slots.last()), name)
    }
}

impl Ledger {
    /// What there is of `name`, free or held by a task.
    pub open spec fn total(self, name: Seq<char>) -> nat {
        self.pool[name] as nat + in_use(self.executor, self.executor.slots, name)
    }

    /// What there is of every resource can be counted.
    pub open spec fn countable(self) -> bool {
        forall|name: Seq<char>| #[trigger]
            self.pool.contains_key(name) ==> self.total(name) <= usize::MAX
    }

    /// The event can happen: slots are handed out once, and a task starts only with the resources
    /// that it asks for.
    pub open spec fn admits(self, event: Event) -> bool {
        &&& self.executor.admits(event)
        &&& match event {
            Event::Scheduled { s_slot, request, claims } => {
                &&& all_affordable(self.pool, request.resources)
                &&& covers(claims, request.resources)
            },
            Event::Finished { s_slot } => fits(self.pool, self.executor.holds(s_slot)),
            _ => true,
        }
    }

    /// The state once the event happened.
    pub open spec fn after(self, event: Event) -> Ledger {
        Ledger {
            executor: self.executor.after(event),
            pool: match event {
                Event::Scheduled { s_slot, request, claims } => granted(
                    self.pool,
                    request.resources,
                ),
                Event::Finished { s_slot } => returned(self.pool, self.executor.holds(s_slot)),
                _ => self.pool,
            },
        }
    }

    /// The events can happen, one after the other.
    pub open spec fn admits_all(self, events: Seq<Event>) -> bool
        decreases events.len(),
    {
        events.len() == 0 || (self.admits_all(events.drop_last()) && self.after_all(
            events.drop_last(),
        ).admits(events.last()))
    }

    /// The state once the events happened, one after the other.
    pub open spec fn after_all(self, events: Seq<Event>) -> Ledger
        decreases events.len(),
    {
        if events.len() == 0 {
            self
        } else {
            self.after_all(events.drop_last()).after(events.last())
        }
    }
}

/// Every message that a server handles is one of the events, or leaves tasks and resources as they
/// are.
pub proof fn messages_are_events<H: HandlerTrait>(
    handlers: Seq<H>,
    envelope: Envelope,
    before: ServerState,
    after: ServerState,
    reply: Option<Reply>,
)
    requires
        message_handled(handlers, envelope, before, after, reply),
    ensures
        ledger(after) == ledger(before) || exists|event: Event| #[trigger]
            ledger(before).admits(event) && ledger(after) == ledger(before).after(event),
{
    if let BoxcarMessage::RpcReq(request) = envelope.message {
        if let Some(r) = reply {
            if let Some(launch) = r.launch {
                let claims = wanted(request.resources.order(), request@.resources);
                claims_cover_wants(request.resources.order(), request@.resources);
                let event = Event::Scheduled {
                    s_slot: launch.s_slot,
                    request: request@,
                    claims,
                };
                assert(ledger(before).admits(event));
                assert(ledger(after) == ledger(before).after(event));
            } else if all_affordable(before.pool, request@.resources) {
                let s_slot = choose|s_slot: u16|
                    {
                        &&& !before.executor.slots.contains(s_slot)
                        &&& after == (ServerState {
                            executor: #[trigger] before.executor.with_slot(s_slot),
                            ..before
                        })
                    };
                let event = Event::SlotUsed { s_slot };
                assert(ledger(before).admits(event));
                assert(ledger(after) == ledger(before).after(event));
            }
        }
    }
}

/// Tasks whose claims did not change hold together what they held.
proof fn in_use_same(a: ExecutorView, b: ExecutorView, slots: Seq<u16>, name: Seq<char>)
    requires
        forall|s: u16| #[trigger] slots.contains(s) ==> a.holds(s) == b.holds(s),
    ensures
        in_use(a, slots, name) == in_use(b, slots, name),
    decreases slots.len(),
{
    if slots.len() > 0 {
        let fewer = slots.drop_last();
        assert forall|s: u16| #[trigger] fewer.contains(s) implies a.holds(s) == b.holds(s) by {
            let i = choose|i: int| 0 <= i < fewer.len() && fewer[i] == s;
            assert(slots[i] == s);
            assert(slots.contains(s));
        }
        in_use_same(a, b, fewer, name);
        assert(slots[slots.len() - 1] == slots.last());
        assert(slots.contains(slots.last()));
    }
}

/// A task that is over takes what it held out of the sum, and nothing else.
proof fn in_use_finished(executor: ExecutorView, slots: Seq<u16>, s_slot: u16, name: Seq<char>)
    requires
        slots.no_duplicates(),
    ensures
        in_use(executor, slots, name) == in_use(
            executor.after(Event::Finished { s_slot }),
            slots,
            name,
        ) + (if slots.contains(s_slot) {
            held(executor.holds(s_slot), name)
        } else {
            0
        }),
    decreases slots.len(),
{
    let after = executor.after(Event::Finished { s_slot });
    assert(after.holds(s_slot) =~= Seq::<ClaimView>::empty());
    assert(held(Seq::<ClaimView>::empty(), name) == 0);
    if slots.len() > 0 {
        let fewer = slots.drop_last();
        assert(slots[slots.len() - 1] == slots.last());
        if slots.last() == s_slot {
            assert(!fewer.contains(s_slot)) by {
                if fewer.contains(s_slot) {
                    let i = choose|i: int| 0 <= i < fewer.len() && fewer[i] == s_slot;
                    assert(slots[i] == slots[slots.len() - 1]);
                }
            }
            assert(slots.contains(s_slot));
        } else {
            assert(after.holds(slots.last()) == executor.holds(slots.last()));
            if slots.contains(s_slot) {
                let i = choose|i: int| 0 <= i < slots.len() && slots[i] == s_slot;
                assert(fewer[i] == s_slot);
            }
            if fewer.contains(s_slot) {
                let i = choose|i: int| 0 <= i < fewer.len() && fewer[i] == s_slot;
                assert(slots[i] == s_slot);
            }
        }
        in_use_finished(executor, fewer, s_slot, name);
    }
}

/// A single task holds no more than all tasks together.
proof fn in_use_includes(executor: ExecutorView, slots: Seq<u16>, s_slot: u16, name: Seq<char>)
    requires
        slots.contains(s_slot),
    ensures
        held(executor.holds(s_slot), name) <= in_use(executor, slots, name),
    decreases slots.len(),
{
    if slots.last() != s_slot {
        let fewer = slots.drop_last();
        let i = choose|i: int| 0 <= i < slots.len() && slots[i] == s_slot;
        assert(fewer[i] == s_slot);
        in_use_includes(executor, fewer, s_slot, name);
    }
}

/// Nothing is lost and nothing is made: no event changes what there is of a resource, free or
/// held by a task.
pub proof fn event_conserves_resources(state: Ledger, event: Event, name: Seq<char>)
    requires
        state.executor.wf(),
        state.admits(event),
        state.pool.contains_key(name),
    ensures
        state.after(event).pool.contains_key(name),
        state.after(event).total(name) == state.total(name),
{
    let before = state.executor;
    let after = state.after(event).executor;
    match event {
        Event::Scheduled { s_slot, request, claims } => {
            claims_conserve(state.pool, claims, request.resources, name);
            assert forall|s: u16| #[trigger] before.slots.contains(s) implies before.holds(s)
                == after.holds(s) by {
                assert(s != s_slot);
            }
            in_use_same(before, after, before.slots, name);
            assert(after.slots.drop_last() =~= before.slots);
            assert(after.holds(s_slot) == claims);
        },
        Event::SlotUsed { s_slot } => {
            assert forall|s: u16| #[trigger] before.slots.contains(s) implies before.holds(s)
                == after.holds(s) by {}
            in_use_same(before, after, before.slots, name);
            assert(after.slots.drop_last() =~= before.slots);
            assert(!before.claims.contains_key(s_slot)) by {
                if before.claims.contains_key(s_slot) {
                    assert(before.tasks.contains_key(s_slot));
                }
            }
            assert(after.holds(s_slot) =~= Seq::<ClaimView>::empty());
            assert(held(Seq::<ClaimView>::empty(), name) == 0);
        },
        Event::Reported { s_slot, result } => {
            in_use_same(before, after, before.slots, name);
        },
        Event::Finished { s_slot } => {
            in_use_finished(before, before.slots, s_slot, name);
            if before.claims.contains_key(s_slot) {
                assert(before.tasks.contains_key(s_slot));
                assert(before.slots.contains(s_slot));
            } else {
                assert(before.holds(s_slot) =~= Seq::<ClaimView>::empty());
                assert(held(Seq::<ClaimView>::empty(), name) == 0);
            }
            assert(state.pool[name] + held(before.holds(s_slot), name) <= usize::MAX);
        },
    }
}

/// The executor of a server goes through the same events.
proof fn ledger_follows_executor(state: Ledger, events: Seq<Event>)
    requires
        state.admits_all(events),
    ensures
        state.executor.admits_all(events),
        state.after_all(events).executor == state.executor.after_all(events),
    decreases events.len(),
{
    if events.len() > 0 {
        ledger_follows_executor(state, events.drop_last());
    }
}

/// Whatever happens to a server, what there is of a resource, free or held by a task, stays the
/// same.
pub proof fn server_conserves_resources(state: Ledger, events: Seq<Event>, name: Seq<char>)
    requires
        state.executor.wf(),
        state.admits_all(events),
        state.pool.contains_key(name),
    ensures
        state.after_all(events).pool.contains_key(name),
        state.after_all(events).total(name) == state.total(name),
    decreases events.len(),
{
    if events.len() > 0 {
        let earlier = events.drop_last();
        server_conserves_resources(state, earlier, name);
        ledger_follows_executor(state, earlier);
        executor_stays_well_formed(state.executor, earlier);
        event_conserves_resources(state.after_all(earlier), events.last(), name);
    }
}

/// Once no task holds anything any more, the pool is full again.
pub proof fn idle_server_has_all_resources(state: Ledger, events: Seq<Event>, name: Seq<char>)
    requires
        state.executor.wf(),
        state.executor.claims == Map::<u16, Seq<ClaimView>>::empty(),
        state.admits_all(events),
        state.after_all(events).executor.claims == Map::<u16, Seq<ClaimView>>::empty(),
        state.pool.contains_key(name),
    ensures
        state.after_all(events).pool.contains_key(name),
        state.after_all(events).pool[name] == state.pool[name],
{
    server_conserves_resources(state, events, name);
    in_use_of_none(state.executor, state.executor.slots, name);
    let last = state.after_all(events).executor;
    in_use_of_none(last, last.slots, name);
}

proof fn in_use_of_none(executor: ExecutorView, slots: Seq<u16>, name: Seq<char>)
    requires
        executor.claims == Map::<u16, Seq<ClaimView>>::empty(),
    ensures
        in_use(executor, slots, name) == 0,
    decreases slots.len(),
{
    if slots.len() > 0 {
        in_use_of_none(executor, slots.drop_last(), name);
        assert(executor.holds(slots.last()) =~= Seq::<ClaimView>::empty());
        assert(held(Seq::<ClaimView>::empty(), name) == 0);
    }
}

/// As long as what there is of every resource can be counted, every task can be finished.
pub proof fn tasks_can_finish(state: Ledger, s_slot: u16)
    requires
        state.executor.wf(),
        state.countable(),
    ensures
        state.admits(Event::Finished { s_slot }),
{
    let executor = state.executor;
    assert forall|name: Seq<char>| #[trigger] state.pool.contains_key(name) implies state.pool[name]
        + held(executor.holds(s_slot), name) <= usize::MAX by {
        if executor.claims.contains_key(s_slot) {
            assert(executor.tasks.contains_key(s_slot));
            in_use_includes(executor, executor.slots, s_slot, name);
        } else {
            assert(executor.holds(s_slot) =~= Seq::<ClaimView>::empty());
            assert(held(Seq::<ClaimView>::empty(), name) == 0);
        }
        assert(state.total(name) <= usize::MAX);
    }
}

/// No event puts a resource into the pool or takes one out of it.
proof fn pool_keeps_names(state: Ledger, events: Seq<Event>)
    ensures
        state.after_all(events).pool.dom() == state.pool.dom(),
    decreases events.len(),
{
    if events.len() > 0 {
        pool_keeps_names(state, events.drop_last());
        assert(state.after_all(events).pool.dom() =~= state.pool.dom());
    }
}

/// If what there is of every resource can be counted at the start, every task can be finished at
/// any time.
pub proof fn tasks_can_always_finish(state: Ledger, events: Seq<Event>, s_slot: u16)
    requires
        state.executor.wf(),
        state.countable(),
        state.admits_all(events),
    ensures
        state.after_all(events).countable(),
        state.after_all(events).admits(Event::Finished { s_slot }),
{
    let last = state.after_all(events);
    assert forall|name: Seq<char>| #[trigger] last.pool.contains_key(name) implies last.total(name)
        <= usize::MAX by {
        pool_keeps_names(state, events);
        assert(state.pool.dom().contains(name));
        server_conserves_resources(state, events, name);
    }
    ledger_follows_executor(state, events);
    executor_stays_well_formed(state.executor, events);
    tasks_can_finish(last, s_slot);
}

/// The slot that an event hands out.
pub open spec fn handed_out(event: Event) -> Option<u16> {
    match event {
        Event::Scheduled { s_slot, .. } => Some(s_slot),
        Event::SlotUsed { s_slot } => Some(s_slot),
        _ => None,
    }
}

proof fn handed_out_is_kept(state: ExecutorView, events: Seq<Event>, i: int)
    requires
        0 <= i < events.len(),
        handed_out(events[i]) is Some,
    ensures
        state.after_all(events).slots.contains(handed_out(events[i])->0),
    decreases events.len(),
{
    let earlier = events.drop_last();
    let s_slot = handed_out(events[i])->0;
    let before = state.after_all(earlier).slots;
    let after = state.after_all(events).slots;
    if i == earlier.len() {
        assert(events[i] == events.last());
        assert(after == before.push(s_slot));
        assert(after[before.len() as int] == s_slot);
    } else {
        assert(earlier[i] == events[i]);
        handed_out_is_kept(state, earlier, i);
        let k = choose|k: int| 0 <= k < before.len() && before[k] == s_slot;
        assert(after[k] == s_slot);
    }
}

/// No two requests ever get the same slot, so a slot tells for good which task is meant.
pub proof fn slots_are_never_reused(state: ExecutorView, events: Seq<Event>, i: int, j: int)
    requires
        state.admits_all(events),
        0 <= i < j < events.len(),
        handed_out(events[i]) is Some,
        handed_out(events[j]) is Some,
    ensures
        handed_out(events[i]) != handed_out(events[j]),
    decreases events.len(),
{
    let earlier = events.drop_last();
    assert(earlier[i] == events[i]);
    if j == earlier.len() {
        assert(events[j] == events.last());
        handed_out_is_kept(state, earlier, i);
    } else {
        assert(earlier[j] == events[j]);
        slots_are_never_reused(state, earlier, i, j);
    }
}

} // verus!
