//! The task queue of a server.
use crate::message::{
    copy_bytes, HandlerTrait, RPCTask, RequestView, ResultView, RpcRequest, RpcResult, TaskView,
};
use crate::rcm::{claim_views, Claim, ClaimView};
use crate::slots::{draw_slot, random_draw, settled, unused};
use std::collections::BTreeMap;
use vstd::prelude::*;

verus! {

broadcast use vstd::std_specs::btree::group_btree_axioms;

/// Where a running task puts its results: the bus, and the slot of the task.
#[derive(Debug)]
pub struct BusWrapper {
    s_slot: u16,
}

impl BusWrapper {
    pub closed spec fn slot(&self) -> u16 {
        self.s_slot
    }

    /// What goes over the bus when the task reports `message`.
    pub fn send(&self, message: RpcResult) -> (update: (u16, RpcResult))
        ensures
            update == (self.slot(), message),
    {
        (self.s_slot, message)
    }
}

/// A task that is ready to run: call the handler with the method, the body and the bus.
#[derive(Debug)]
pub struct Launch {
    pub s_slot: u16,
    /// The place of the handler, in the order in which handlers were added
    pub handler: usize,
    pub method: String,
    pub body: Vec<u8>,
    pub bus: BusWrapper,
}

#[derive(Clone, Copy, Debug, PartialEq, Eq, Structural)]
pub enum ExecuteError {
    /// No vacant slot was found
    NoSlot,
    /// No handler runs the requested method
    NoHandler,
}

/// A request that was not scheduled. The claims made for it come back.
#[derive(Debug)]
pub struct Refused {
    pub error: ExecuteError,
    pub claims: Vec<Claim>,
}

/// A handler, when asked, said that it runs (or does not run) `method`.
pub open spec fn answered<H: HandlerTrait>(handler: H, method: Seq<char>, yes: bool) -> bool {
    exists|m: &str| m@ == method && call_ensures(H::contains, (&handler, m), yes)
}

/// What came of asking the handlers, one after the other, for one that runs `method`.
pub open spec fn found_handler<H: HandlerTrait>(
    handlers: Seq<H>,
    method: Seq<char>,
    found: Option<usize>,
) -> bool {
    match found {
        Some(i) => {
            &&& i < handlers.len()
            &&& answered(handlers[i as int], method, true)
            &&& forall|j: int| 0 <= j < i ==> answered(#[trigger] handlers[j], method, false)
        },
        None => forall|j: int|
            0 <= j < handlers.len() ==> answered(#[trigger] handlers[j], method, false),
    }
}

/// The tasks once `result` was recorded for the task in `s_slot`.
pub open spec fn recorded(
    tasks: Map<u16, TaskView>,
    s_slot: u16,
    result: ResultView,
) -> Map<u16, TaskView> {
    if tasks.contains_key(s_slot) {
        tasks.insert(s_slot, TaskView { request: tasks[s_slot].request, result })
    } else {
        tasks
    }
}

/// The state of an executor.
#[verifier::ext_equal]
pub struct ExecutorView {
    /// The slots that were handed out
    pub slots: Seq<u16>,
    /// The tasks that were scheduled, running or done
    pub tasks: Map<u16, TaskView>,
    /// What the tasks that run hold of the resource pool
    pub claims: Map<u16, Seq<ClaimView>>,
}

impl ExecutorView {
    /// No slot was handed out twice, every task has a slot, and only tasks hold claims.
    pub open spec fn wf(self) -> bool {
        &&& self.slots.no_duplicates()
        &&& forall|s: u16| #[trigger] self.tasks.contains_key(s) ==> self.slots.contains(s)
        &&& forall|s: u16| #[trigger] self.claims.contains_key(s) ==> self.tasks.contains_key(s)
    }

    /// The state once `s_slot` was handed out.
    pub open spec fn with_slot(self, s_slot: u16) -> ExecutorView {
        ExecutorView { slots: self.slots.push(s_slot), ..self }
    }

    /// The state once `request` was scheduled to run in `s_slot`.
    pub open spec fn with_task(
        self,
        s_slot: u16,
        request: RequestView,
        claims: Seq<ClaimView>,
    ) -> ExecutorView {
        ExecutorView {
            tasks: self.tasks.insert(s_slot, TaskView { request, result: ResultView::Pending }),
            claims: self.claims.insert(s_slot, claims),
            ..self
        }
    }

    /// What the task in `s_slot` holds of the resource pool.
    pub open spec fn holds(self, s_slot: u16) -> Seq<ClaimView> {
        if self.claims.contains_key(s_slot) {
            self.claims[s_slot]
        } else {
            Seq::empty()
        }
    }
}

/// What can happen to an executor.
pub enum Event {
    /// A request was scheduled
    Scheduled { s_slot: u16, request: RequestView, claims: Seq<ClaimView> },
    /// A slot was handed out to a request that no handler runs
    SlotUsed { s_slot: u16 },
    /// A task reported a result over the bus
    Reported { s_slot: u16, result: ResultView },
    /// A task is over
    Finished { s_slot: u16 },
}

impl ExecutorView {
    /// The event can happen: only slots that were not handed out before are handed out.
    pub open spec fn admits(self, event: Event) -> bool {
        match event {
            Event::Scheduled { s_slot, .. } => !self.slots.contains(s_slot),
            Event::SlotUsed { s_slot } => !self.slots.contains(s_slot),
            _ => true,
        }
    }

    /// The state once the event happened.
    pub open spec fn after(self, event: Event) -> ExecutorView {
        match event {
            Event::Scheduled { s_slot, request, claims } => self.with_slot(s_slot).with_task(
                s_slot,
                request,
                claims,
            ),
            Event::SlotUsed { s_slot } => self.with_slot(s_slot),
            Event::Reported { s_slot, result } => ExecutorView {
                tasks: recorded(self.tasks, s_slot, result),
                ..self
            },
            Event::Finished { s_slot } => ExecutorView {
                claims: self.claims.remove(s_slot),
                ..self
            },
        }
    }

    /// The events can happen, one after the other.
    pub open spec fn admits_all(self, events: Seq<Event>) -> bool
        decreases events.len(),
    {
        events.len() == 0 || (self.admits_all(events.drop_last()) && self.after_all(
            events.drop_last(),
        ).admits(events.last()))
    }

    /// The state once the events happened, one after the other.
    pub open spec fn after_all(self, events: Seq<Event>) -> ExecutorView
        decreases events.len(),
    {
        if events.len() == 0 {
            self
        } else {
            self.after_all(events.drop_last()).after(events.last())
        }
    }
}

/// Whatever happens, no slot is handed out twice and no task loses its slot.
pub proof fn executor_stays_well_formed(state: ExecutorView, events: Seq<Event>)
    requires
        state.wf(),
        state.admits_all(events),
    ensures
        state.after_all(events).wf(),
    decreases events.len(),
{
    if events.len() > 0 {
        executor_stays_well_formed(state, events.drop_last());
        let before = state.after_all(events.drop_last());
        match events.last() {
            Event::Scheduled { s_slot, .. } => {
                slot_keeps_wf(before, s_slot);
            },
            Event::SlotUsed { s_slot } => {
                slot_keeps_wf(before, s_slot);
            },
            _ => {},
        }
    }
}

/// A task stays on record for good, with the last result that it reported: requests of other
/// clients, other tasks, and the end of the task itself do not change it.
pub proof fn result_is_kept(state: ExecutorView, events: Seq<Event>, s_slot: u16)
    requires
        state.wf(),
        state.tasks.contains_key(s_slot),
        state.admits_all(events),
        forall|i: int|
            0 <= i < events.len() ==> !((#[trigger] events[i]) is Reported
                && events[i]->Reported_s_slot == s_slot),
    ensures
        state.after_all(events).tasks.contains_key(s_slot),
        state.after_all(events).tasks[s_slot] == state.tasks[s_slot],
    decreases events.len(),
{
    if events.len() > 0 {
        let earlier = events.drop_last();
        assert forall|i: int| 0 <= i < earlier.len() implies !((#[trigger] earlier[i]) is Reported
            && earlier[i]->Reported_s_slot == s_slot) by {
            assert(earlier[i] == events[i]);
        }
        result_is_kept(state, earlier, s_slot);
        executor_stays_well_formed(state, earlier);
        let before = state.after_all(earlier);
        assert(before.slots.contains(s_slot));
        assert(events[events.len() - 1] == events.last());
    }
}

/// Results are not lost: whatever happens after a task reported a result, it is on record until
/// the task reports another one.
pub proof fn last_report_is_on_record(
    state: ExecutorView,
    s_slot: u16,
    result: ResultView,
    events: Seq<Event>,
)
    requires
        state.wf(),
        state.tasks.contains_key(s_slot),
        state.after(Event::Reported { s_slot, result }).admits_all(events),
        forall|i: int|
            0 <= i < events.len() ==> !((#[trigger] events[i]) is Reported
                && events[i]->Reported_s_slot == s_slot),
    ensures
        state.after(Event::Reported { s_slot, result }).after_all(events).tasks.contains_key(s_slot),
        state.after(Event::Reported { s_slot, result }).after_all(events).tasks[s_slot].result
            == result,
{
    result_is_kept(state.after(Event::Reported { s_slot, result }), events, s_slot);
}

/// The handlers once `more` were added, one after the other.
pub open spec fn with_handlers<H>(handlers: Seq<H>, more: Seq<H>) -> Seq<H>
    decreases more.len(),
{
    if more.len() == 0 {
        handlers
    } else {
        with_handlers(handlers, more.drop_last()).push(more.last())
    }
}

/// Handlers are counted as often as they are added, and stay in the order in which they were.
pub proof fn handlers_are_counted<H>(handlers: Seq<H>, more: Seq<H>)
    ensures
        with_handlers(handlers, more) == handlers + more,
        with_handlers(handlers, more).len() == handlers.len() + more.len(),
    decreases more.len(),
{
    if more.len() > 0 {
        handlers_are_counted(handlers, more.drop_last());
    }
    assert(with_handlers(handlers, more) =~= handlers + more);
}

#[verifier::reject_recursive_types(H)]
pub struct BoxcarExecutor<H> {
    /// List of all allocated slots
    slots: Vec<u16>,
    handlers: Vec<H>,
    tasks: BTreeMap<u16, RPCTask>,
    claims: BTreeMap<u16, Vec<Claim>>,
}

impl<H> View for BoxcarExecutor<H> {
    type V = ExecutorView;

    closed spec fn view(&self) -> ExecutorView {
        ExecutorView {
            slots: self.slots@,
            tasks: self.tasks@.map_values(|task: RPCTask| task@),
            claims: self.claims@.map_values(|claims: Vec<Claim>| claim_views(claims@)),
        }
    }
}

impl<H> BoxcarExecutor<H> {
    /// The registered handlers, in the order in which they were added.
    pub closed spec fn handlers(&self) -> Seq<H> {
        self.handlers@
    }

    pub open spec fn wf(&self) -> bool {
        self@.wf()
    }

    pub fn new() -> (executor: Self)
        ensures
            executor.wf(),
            executor.handlers() == Seq::<H>::empty(),
            executor@ == (ExecutorView {
                slots: Seq::empty(),
                tasks: Map::empty(),
                claims: Map::empty(),
            }),
    {
        let executor = BoxcarExecutor {
            slots: Vec::new(),
            handlers: Vec::new(),
            tasks: BTreeMap::new(),
            claims: BTreeMap::new(),
        };
        assert(executor@.tasks =~= Map::empty());
        assert(executor@.claims =~= Map::empty());
        executor
    }

    /// Add a handler
    pub fn add_handler(&mut self, handle: H)
        ensures
            final(self).handlers() == old(self).handlers().push(handle),
            final(self)@ == old(self)@,
    {
        self.handlers.push(handle);
    }

    /// Return the number of registered handlers
    pub fn num_handlers(&self) -> (count: usize)
        ensures
            count == self.handlers().len(),
    {
        self.handlers.len()
    }

    /// The handler at the given place, in the order in which handlers were added.
    pub fn handler(&self, place: usize) -> (handler: Option<&H>)
        ensures
            match handler {
                Some(handler) => {
                    &&& place < self.handlers().len()
                    &&& *handler == self.handlers()[place as int]
                },
                None => place >= self.handlers().len(),
            },
    {
        if place < self.handlers.len() {
            Some(&self.handlers[place])
        } else {
            None
        }
    }

    /// Hand out a slot that was not handed out before.
    pub fn assign_slot(&mut self) -> (slot: Option<u16>)
        requires
            old(self).wf(),
        ensures
            final(self).wf(),
            final(self).handlers() == old(self).handlers(),
            settled(random_draw, unused(old(self)@.slots), slot),
            match slot {
                Some(slot) => {
                    &&& !old(self)@.slots.contains(slot)
                    &&& final(self)@ == old(self)@.with_slot(slot)
                },
                None => old(self)@.slots.len() > 0 && final(self)@ == old(self)@,
            },
    {
        let ghost before = self@;
        let slot = draw_slot(&mut self.slots);
        proof {
            if let Some(s) = slot {
                slot_keeps_wf(before, s);
            }
        }
        slot
    }

    /// Store what a task reported over the bus. Returns if there is such a task.
    pub fn record(&mut self, s_slot: u16, result: RpcResult) -> (known: bool)
        requires
            old(self).wf(),
        ensures
            final(self).wf(),
            final(self).handlers() == old(self).handlers(),
            known == old(self)@.tasks.contains_key(s_slot),
            final(self)@ == old(self)@.after(Event::Reported { s_slot, result: result@ }),
    {
        match self.tasks.remove(&s_slot) {
            Some(task) => {
                self.tasks.insert(s_slot, RPCTask { request: task.request, result });
                assert(self@.tasks =~= recorded(old(self)@.tasks, s_slot, result@));
                assert(self@ =~= old(self)@.after(Event::Reported { s_slot, result: result@ }));
                true
            },
            None => {
                assert(self@ =~= old(self)@.after(Event::Reported { s_slot, result: result@ }));
                false
            },
        }
    }

    /// Is there a task in `s_slot`, running or done?
    pub fn has_task(&self, s_slot: u16) -> (yes: bool)
        ensures
            yes == self@.tasks.contains_key(s_slot),
    {
        self.tasks.contains_key(&s_slot)
    }

    /// The last result that was recorded for the task in `s_slot`.
    pub fn result(&self, s_slot: u16) -> (result: Option<RpcResult>)
        ensures
            match result {
                Some(result) => {
                    &&& self@.tasks.contains_key(s_slot)
                    &&& result@ == self@.tasks[s_slot].result
                },
                None => !self@.tasks.contains_key(s_slot),
            },
    {
        match self.tasks.get(&s_slot) {
            Some(task) => Some(task.result.clone()),
            None => None,
        }
    }

    /// Schedule a request in a slot of its own, given the handler that was found for it.
    pub fn schedule(
        &mut self,
        s_slot: u16,
        found: Option<usize>,
        request: RpcRequest,
        claims: Vec<Claim>,
    ) -> (launch: Result<Launch, Refused>)
        requires
            old(self).wf(),
            old(self)@.slots.contains(s_slot),
            !old(self)@.tasks.contains_key(s_slot),
        ensures
            final(self).wf(),
            final(self).handlers() == old(self).handlers(),
            match launch {
                Ok(launch) => {
                    &&& found == Some(launch.handler)
                    &&& launch.s_slot == s_slot
                    &&& launch.bus.slot() == s_slot
                    &&& launch.method@ == request.method@
                    &&& launch.body@ == request.body@
                    &&& final(self)@ == old(self)@.with_task(
                        s_slot,
                        request@,
                        claim_views(claims@),
                    )
                },
                Err(refused) => {
                    &&& found is None
                    &&& refused.error == ExecuteError::NoHandler
                    &&& refused.claims == claims
                    &&& final(self)@ == old(self)@
                },
            },
    {
        match found {
            None => Err(Refused { error: ExecuteError::NoHandler, claims }),
            Some(handler) => {
                let launch = Launch {
                    s_slot,
                    handler,
                    method: request.method.clone(),
                    body: copy_bytes(&request.body),
                    bus: BusWrapper { s_slot },
                };
                let ghost asked = request@;
                let ghost views = claim_views(claims@);
                self.tasks.insert(s_slot, RPCTask { request, result: RpcResult::Pending });
                self.claims.insert(s_slot, claims);
                assert(self@ =~= old(self)@.with_task(s_slot, asked, views)) by {
                    assert(self@.tasks =~= old(self)@.with_task(s_slot, asked, views).tasks);
                    assert(self@.claims =~= old(self)@.with_task(s_slot, asked, views).claims);
                }
                Ok(launch)
            },
        }
    }

    /// Schedule a request, given the slot and the handler that were found for it, if any were.
    pub fn execute_in(
        &mut self,
        slot: Option<u16>,
        found: Option<usize>,
        request: RpcRequest,
        claims: Vec<Claim>,
    ) -> (launch: Result<Launch, Refused>)
        requires
            old(self).wf(),
            slot matches Some(s_slot) ==> old(self)@.slots.contains(s_slot)
                && !old(self)@.tasks.contains_key(s_slot),
        ensures
            final(self).wf(),
            final(self).handlers() == old(self).handlers(),
            match (slot, found) {
                (Some(s_slot), Some(handler)) => {
                    &&& launch is Ok
                    &&& launch->Ok_0.handler == handler
                    &&& launch->Ok_0.s_slot == s_slot
                    &&& launch->Ok_0.bus.slot() == s_slot
                    &&& launch->Ok_0.method@ == request.method@
                    &&& launch->Ok_0.body@ == request.body@
                    &&& final(self)@ == old(self)@.with_task(
                        s_slot,
                        request@,
                        claim_views(claims@),
                    )
                },
                (Some(_), None) => {
                    &&& launch == Err::<Launch, Refused>(
                        Refused { error: ExecuteError::NoHandler, claims },
                    )
                    &&& final(self)@ == old(self)@
                },
                (None, _) => {
                    &&& launch == Err::<Launch, Refused>(
                        Refused { error: ExecuteError::NoSlot, claims },
                    )
                    &&& final(self)@ == old(self)@
                },
            },
    {
        match slot {
            None => Err(Refused { error: ExecuteError::NoSlot, claims }),
            Some(s_slot) => self.schedule(s_slot, found, request, claims),
        }
    }

    /// The task in `s_slot` is over: hand out what it held of the resource pool.
    pub fn finish_task(&mut self, s_slot: u16) -> (claims: Vec<Claim>)
        requires
            old(self).wf(),
        ensures
            final(self).wf(),
            final(self).handlers() == old(self).handlers(),
            claim_views(claims@) == old(self)@.holds(s_slot),
            final(self)@ == old(self)@.after(Event::Finished { s_slot }),
    {
        let removed = self.claims.remove(&s_slot);
        assert(self@.claims =~= old(self)@.claims.remove(s_slot));
        assert(self@ =~= old(self)@.after(Event::Finished { s_slot }));
        match removed {
            Some(claims) => claims,
            None => {
                let claims: Vec<Claim> = Vec::new();
                assert(claim_views(claims@) =~= Seq::empty());
                claims
            },
        }
    }

    /// What the task in `s_slot` holds of the resource pool.
    pub fn held_claims(&self, s_slot: u16) -> (claims: Option<&Vec<Claim>>)
        ensures
            match claims {
                Some(claims) => claim_views(claims@) == self@.holds(s_slot),
                None => self@.holds(s_slot) == Seq::<ClaimView>::empty(),
            },
    {
        self.claims.get(&s_slot)
    }
}

proof fn slot_keeps_wf(state: ExecutorView, s_slot: u16)
    requires
        state.wf(),
        !state.slots.contains(s_slot),
    ensures
        state.with_slot(s_slot).wf(),
        state.with_slot(s_slot).slots.contains(s_slot),
        !state.tasks.contains_key(s_slot),
{
    let slots = state.slots.push(s_slot);
    assert forall|s: u16| state.slots.contains(s) implies #[trigger] slots.contains(s) by {
        let i = choose|i: int| 0 <= i < state.slots.len() && state.slots[i] == s;
        assert(slots[i] == s);
    }
    assert(slots[state.slots.len() as int] == s_slot);
}

impl<H: HandlerTrait> BoxcarExecutor<H> {
    /// Ask the handlers, in the order in which they were added, for one that runs the method.
    pub fn find_handler(&self, method: &String) -> (found: Option<usize>)
        ensures
            found_handler(self.handlers(), method@, found),
    {
        let mut i: usize = 0;
        while i < self.handlers.len()
            invariant
                i <= self.handlers@.len(),
                forall|j: int|
                    0 <= j < i ==> answered(#[trigger] self.handlers@[j], method@, false),
            decreases self.handlers@.len() - i,
        {
            let m = method.as_str();
            let yes = self.handlers[i].contains(m);
            assert(answered(self.handlers@[i as int], method@, yes));
            if yes {
                return Some(i);
            }
            i += 1;
        }
        None
    }

    /// Find a slot for a request and, if there is one, the handler that runs its method.
    pub fn place(&mut self, method: &String) -> (placed: (Option<u16>, Option<usize>))
        requires
            old(self).wf(),
        ensures
            final(self).wf(),
            final(self).handlers() == old(self).handlers(),
            settled(random_draw, unused(old(self)@.slots), placed.0),
            match placed.0 {
                Some(s_slot) => {
                    &&& !old(self)@.slots.contains(s_slot)
                    &&& final(self)@ == old(self)@.with_slot(s_slot)
                    &&& final(self)@.slots.contains(s_slot)
                    &&& !final(self)@.tasks.contains_key(s_slot)
                    &&& found_handler(old(self).handlers(), method@, placed.1)
                },
                None => {
                    &&& old(self)@.slots.len() > 0
                    &&& final(self)@ == old(self)@
                    &&& placed.1 is None
                },
            },
    {
        let ghost before = self@;
        match self.assign_slot() {
            None => (None, None),
            Some(s_slot) => {
                proof {
                    slot_keeps_wf(before, s_slot);
                }
                (Some(s_slot), self.find_handler(method))
            },
        }
    }

    /// Schedule a request: give it a slot, and find the handler that runs its method.
    ///
    /// The slot of a request for which there is no handler stays in use.
    pub fn execute_task(&mut self, request: RpcRequest, claims: Vec<Claim>) -> (launch: Result<
        Launch,
        Refused,
    >)
        requires
            old(self).wf(),
        ensures
            final(self).wf(),
            final(self).handlers() == old(self).handlers(),
            match launch {
                Ok(launch) => {
                    &&& settled(random_draw, unused(old(self)@.slots), Some(launch.s_slot))
                    &&& !old(self)@.slots.contains(launch.s_slot)
                    &&& found_handler(
                        old(self).handlers(),
                        request.method@,
                        Some(launch.handler),
                    )
                    &&& launch.bus.slot() == launch.s_slot
                    &&& launch.method@ == request.method@
                    &&& launch.body@ == request.body@
                    &&& final(self)@ == old(self)@.with_slot(launch.s_slot).with_task(
                        launch.s_slot,
                        request@,
                        claim_views(claims@),
                    )
                },
                Err(refused) => {
                    &&& refused.claims == claims
                    &&& match refused.error {
                        ExecuteError::NoSlot => {
                            &&& settled(random_draw, unused(old(self)@.slots), None)
                            &&& old(self)@.slots.len() > 0
                            &&& final(self)@ == old(self)@
                        },
                        ExecuteError::NoHandler => {
                            &&& found_handler(old(self).handlers(), request.method@, None)
                            &&& exists|s_slot: u16|
                                {
                                    &&& settled(
                                        random_draw,
                                        unused(old(self)@.slots),
                                        Some(s_slot),
                                    )
                                    &&& !old(self)@.slots.contains(s_slot)
                                    &&& final(self)@ == #[trigger] old(self)@.with_slot(s_slot)
                                }
                        },
                    }
                },
            },
    {
        let (slot, found) = self.place(&request.method);
        self.execute_in(slot, found, request, claims)
    }
}

impl<H> Default for BoxcarExecutor<H> {
    fn default() -> (executor: Self)
        ensures
            executor.wf(),
            executor.handlers() == Seq::<H>::empty(),
            executor@ == (ExecutorView {
                slots: Seq::empty(),
                tasks: Map::empty(),
                claims: Map::empty(),
            }),
    {
        Self::new()
    }
}

} // verus!
