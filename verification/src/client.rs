//! The client's side of a connection.
use crate::executor::{last_report_is_on_record, Event, ExecutorView};
use crate::message::{
    BoxcarMessage, Envelope, EnvelopeView, HandlerTrait, MessageView, ResultView, RpcRequest,
};
use crate::queue::{queue_len, queue_limit, queue_new, queue_push, queue_try_pop, queued};
use crate::server::{
    message_handled, relayed, result_answer, sub_answer, subscribed, subscriber_gets_last_result,
    unsubscribed, Reply, ServerState,
};
use crate::slots::{drawn, judge_draw, random_draw, settled, Draw, MAX_DEPTH};
use std::collections::{BTreeMap, HashMap};
use vstd::prelude::*;

verus! {

broadcast use {
    vstd::std_specs::btree::group_btree_axioms,
    vstd::std_specs::hash::group_hash_axioms,
};

/// The state of a client.
#[verifier::ext_equal]
pub struct ClientView {
    /// The messages that wait in each communication slot, the first to come in front
    pub inbox: Map<u16, Seq<MessageView>>,
    /// The communication slot in which the updates of a task come in, for each task that the
    /// client follows
    pub slot_map: Map<u16, u16>,
}

impl ClientView {
    /// Slot 0 was not handed out, and the slot in which the updates of a task are expected was.
    pub open spec fn wf(self) -> bool {
        &&& !self.inbox.contains_key(0)
        &&& forall|s: u16| #[trigger]
            self.slot_map.contains_key(s) ==> self.inbox.contains_key(self.slot_map[s])
    }

    /// A slot that can be handed out. Slot 0 is reserved for unsolicited communication.
    pub open spec fn vacant(self, c_slot: u16) -> bool {
        c_slot != 0 && !self.inbox.contains_key(c_slot)
    }

    /// The slots that can be handed out.
    pub open spec fn vacancy(self) -> spec_fn(u16) -> bool {
        |s: u16| self.vacant(s)
    }

    /// The state once `c_slot` was handed out.
    pub open spec fn with_slot(self, c_slot: u16) -> ClientView {
        ClientView { inbox: self.inbox.insert(c_slot, Seq::empty()), ..self }
    }

    /// The state once the updates of the task in `s_slot` are expected in `c_slot`.
    pub open spec fn following(self, s_slot: u16, c_slot: u16) -> ClientView {
        ClientView { slot_map: self.slot_map.insert(s_slot, c_slot), ..self }
    }

    /// The state once the client no longer follows the task in `s_slot`.
    pub open spec fn leaving(self, s_slot: u16) -> ClientView {
        ClientView { slot_map: self.slot_map.remove(s_slot), ..self }
    }

    /// The state once a message came in for `c_slot`. It is dropped if there is no such slot.
    pub open spec fn delivered(self, c_slot: u16, message: MessageView) -> ClientView {
        if self.inbox.contains_key(c_slot) {
            ClientView {
                inbox: self.inbox.insert(c_slot, self.inbox[c_slot].push(message)),
                ..self
            }
        } else {
            self
        }
    }

    /// The client follows the task in `s_slot`.
    pub open spec fn follows(self, s_slot: u16) -> bool {
        self.slot_map.contains_key(s_slot) && self.inbox.contains_key(self.slot_map[s_slot])
    }

    /// The message that waits in front in `c_slot`.
    pub open spec fn first(self, c_slot: u16) -> Option<MessageView> {
        if self.inbox[c_slot].len() > 0 {
            Some(self.inbox[c_slot][0])
        } else {
            None
        }
    }

    /// The state once the message in front was taken out of `c_slot`, if one waits there.
    pub open spec fn popped(self, c_slot: u16) -> ClientView {
        if self.inbox[c_slot].len() > 0 {
            ClientView { inbox: self.inbox.insert(c_slot, self.inbox[c_slot].skip(1)), ..self }
        } else {
            self
        }
    }
}

#[derive(Debug)]
pub enum ClientError {
    /// There is no such communication slot
    NoSuchSlot,
    /// The server answered with an error
    Server(String),
    /// The server's answer makes no sense
    Unexpected,
    /// The client does not follow the task
    NotSubscribed,
}

/// What a client that closes tells the server, in this order.
#[derive(Debug)]
pub struct Farewell {
    /// The client follows no task any more. There is nothing to send if no vacant slot was found
    pub unsub: Option<Envelope>,
    /// The client shuts down
    pub hangup: Envelope,
}

/// What became of a message that came in.
#[derive(Clone, Copy, Debug, PartialEq, Eq, Structural)]
pub enum Delivery {
    /// It waits in its slot
    Queued,
    /// There is no such slot, it may have been dropped. The message is ignored
    NoSlot,
    /// The slot holds as many messages as can be counted. The message was not taken
    Full,
}

pub struct Client {
    inbox: BTreeMap<u16, deadqueue::unlimited::Queue<BoxcarMessage>>,
    slot_map: HashMap<u16, u16>,
}

/// The messages in the queue, the one that came in first in front.
spec fn waiting(queue: deadqueue::unlimited::Queue<BoxcarMessage>) -> Seq<MessageView> {
    queued(&queue).map_values(|message: BoxcarMessage| message@)
}

impl View for Client {
    type V = ClientView;

    closed spec fn view(&self) -> ClientView {
        ClientView {
            inbox: self.inbox@.map_values(
                |queue: deadqueue::unlimited::Queue<BoxcarMessage>| waiting(queue),
            ),
            slot_map: self.slot_map@,
        }
    }
}

/// A list with a single slot in it.
fn single(s_slot: u16) -> (slots: Vec<u16>)
    ensures
        slots@ == seq![s_slot],
{
    let mut slots: Vec<u16> = Vec::new();
    slots.push(s_slot);
    assert(slots@ =~= seq![s_slot]);
    slots
}

impl Client {
    pub fn new() -> (client: Self)
        ensures
            client@ == (ClientView { inbox: Map::empty(), slot_map: Map::empty() }),
    {
        let client = Client { inbox: BTreeMap::new(), slot_map: HashMap::new() };
        assert(client@.inbox =~= Map::empty());
        client
    }

    /// Hand out `slot`, if it is vacant.
    pub fn take_slot(&mut self, slot: u16) -> (vacant: bool)
        ensures
            vacant == old(self)@.vacant(slot),
            final(self)@ == (if vacant {
                old(self)@.with_slot(slot)
            } else {
                old(self)@
            }),
    {
        if slot == 0 || self.inbox.contains_key(&slot) {
            return false;
        }
        let queue = queue_new();
        assert(waiting(queue) =~= Seq::empty());
        self.inbox.insert(slot, queue);
        assert(self@ =~= old(self)@.with_slot(slot)) by {
            assert(self@.inbox =~= old(self)@.with_slot(slot).inbox);
        }
        true
    }

    /// Draw slots from `source` until one is vacant, and hand it out.
    pub fn allocate_from<F: Fn(u32) -> u16>(&mut self, source: F) -> (slot: Option<u16>)
        requires
            forall|depth: u32|
                depth <= MAX_DEPTH + 1 ==> #[trigger] call_requires(source, (depth,)),
        ensures
            settled(source, old(self)@.vacancy(), slot),
            final(self)@ == (match slot {
                Some(slot) => old(self)@.with_slot(slot),
                None => old(self)@,
            }),
    {
        let ghost vacancy = old(self)@.vacancy();
        let ghost mut draws = Seq::<u16>::empty();
        let mut depth: u32 = 0;
        loop
            invariant
                depth <= MAX_DEPTH + 1,
                self@ == old(self)@,
                vacancy == old(self)@.vacancy(),
                draws.len() == depth,
                drawn(source, draws),
                forall|i: int| 0 <= i < draws.len() ==> !vacancy(#[trigger] draws[i]),
                forall|d: u32| d <= MAX_DEPTH + 1 ==> #[trigger] call_requires(source, (d,)),
            decreases MAX_DEPTH + 1 - depth,
        {
            let slot = source(depth);
            let vacant = self.take_slot(slot);
            proof {
                draws = draws.push(slot);
                assert(drawn(source, draws));
            }
            match judge_draw(depth, vacant) {
                Draw::Use => {
                    assert(draws.last() == slot);
                    return Some(slot);
                },
                Draw::GiveUp => {
                    return None;
                },
                Draw::Again => {},
            }
            depth += 1;
        }
    }

    /// Draw slots at random until one is vacant, and hand it out. There is none if no draw hit a
    /// vacant one. Chance can do that to any client, as slot 0 may be drawn but is never vacant.
    pub fn allocate_slot(&mut self) -> (slot: Option<u16>)
        ensures
            settled(random_draw, old(self)@.vacancy(), slot),
            match slot {
                Some(slot) => {
                    &&& old(self)@.vacant(slot)
                    &&& final(self)@ == old(self)@.with_slot(slot)
                },
                None => final(self)@ == old(self)@,
            },
    {
        self.allocate_from(random_draw)
    }

    /// Address a message to the server, from the slot that was found for the response. There is
    /// nothing to send if none was found.
    pub fn address(slot: Option<u16>, message: BoxcarMessage) -> (envelope: Option<Envelope>)
        ensures
            envelope == (match slot {
                Some(c_slot) => Some(Envelope { c_slot, message }),
                None => None,
            }),
    {
        match slot {
            Some(c_slot) => Some(Envelope { c_slot, message }),
            None => None,
        }
    }

    /// Address a message to the server. The response (might) come in in the slot of the envelope,
    /// which is handed out for it. There is nothing to send if no vacant slot was found.
    pub fn send(&mut self, message: BoxcarMessage) -> (envelope: Option<Envelope>)
        ensures
            match envelope {
                Some(envelope) => {
                    &&& envelope.message == message
                    &&& settled(random_draw, old(self)@.vacancy(), Some(envelope.c_slot))
                    &&& old(self)@.vacant(envelope.c_slot)
                    &&& final(self)@ == old(self)@.with_slot(envelope.c_slot)
                },
                None => {
                    &&& settled(random_draw, old(self)@.vacancy(), None)
                    &&& final(self)@ == old(self)@
                },
            },
    {
        // allocate a slot, which is where we will get the response
        let slot = self.allocate_slot();
        Self::address(slot, message)
    }

    /// Request that a task is run. The answer is read with `call_reply`.
    pub fn call(&mut self, request: RpcRequest) -> (envelope: Option<Envelope>)
        ensures
            match envelope {
                Some(envelope) => {
                    &&& envelope.message == BoxcarMessage::RpcReq(request)
                    &&& settled(random_draw, old(self)@.vacancy(), Some(envelope.c_slot))
                    &&& old(self)@.vacant(envelope.c_slot)
                    &&& final(self)@ == old(self)@.with_slot(envelope.c_slot)
                },
                None => {
                    &&& settled(random_draw, old(self)@.vacancy(), None)
                    &&& final(self)@ == old(self)@
                },
            },
    {
        self.send(BoxcarMessage::RpcReq(request))
    }

    /// Take in the server's answer to a request that was sent from `c_slot`. If the task was
    /// scheduled, the client follows it.
    pub fn accept_reply(&mut self, c_slot: u16, reply: BoxcarMessage) -> (s_slot: Result<
        u16,
        ClientError,
    >)
        ensures
            match reply@ {
                MessageView::RpcReqSlot(slot) => {
                    &&& s_slot == Ok::<u16, ClientError>(slot)
                    &&& final(self)@ == old(self)@.following(slot, c_slot)
                },
                MessageView::ServerError(text) => {
                    &&& s_slot matches Err(ClientError::Server(error)) && error@ == text
                    &&& final(self)@ == old(self)@
                },
                _ => {
                    &&& s_slot matches Err(ClientError::Unexpected)
                    &&& final(self)@ == old(self)@
                },
            },
    {
        match reply {
            BoxcarMessage::RpcReqSlot(s_slot) => {
                self.slot_map.insert(s_slot, c_slot);
                assert(self@ =~= old(self)@.following(s_slot, c_slot));
                Ok(s_slot)
            },
            BoxcarMessage::ServerError(error) => Err(ClientError::Server(error)),
            _ => Err(ClientError::Unexpected),
        }
    }

    /// Take the message in front out of a slot. There is none if no message waits.
    fn pop(&mut self, c_slot: u16) -> (message: Option<BoxcarMessage>)
        requires
            old(self)@.inbox.contains_key(c_slot),
        ensures
            final(self)@ == old(self)@.popped(c_slot),
            match message {
                Some(message) => old(self)@.first(c_slot) == Some(message@),
                None => old(self)@.first(c_slot) is None,
            },
    {
        match self.inbox.remove(&c_slot) {
            Some(found) => {
                let mut queue = found;
                let ghost before = queue;
                let message = queue_try_pop(&mut queue);
                assert(message is Some ==> waiting(queue) =~= waiting(before).skip(1));
                self.inbox.insert(c_slot, queue);
                assert(self@ =~= old(self)@.popped(c_slot)) by {
                    assert(self@.inbox =~= old(self)@.popped(c_slot).inbox);
                }
                message
            },
            None => None,
        }
    }

    /// The server's answer to a request that was sent from `c_slot`. There is none for as long as
    /// it has not come in.
    pub fn call_reply(&mut self, c_slot: u16) -> (reply: Option<Result<u16, ClientError>>)
        ensures
            if !old(self)@.inbox.contains_key(c_slot) {
                &&& reply matches Some(Err(ClientError::NoSuchSlot))
                &&& final(self)@ == old(self)@
            } else {
                match old(self)@.first(c_slot) {
                    None => reply is None && final(self)@ == old(self)@,
                    Some(MessageView::RpcReqSlot(s_slot)) => {
                        &&& reply == Some(Ok::<u16, ClientError>(s_slot))
                        &&& final(self)@ == old(self)@.popped(c_slot).following(s_slot, c_slot)
                    },
                    Some(MessageView::ServerError(text)) => {
                        &&& reply matches Some(Err(ClientError::Server(error))) && error@ == text
                        &&& final(self)@ == old(self)@.popped(c_slot)
                    },
                    Some(_) => {
                        &&& reply matches Some(Err(ClientError::Unexpected))
                        &&& final(self)@ == old(self)@.popped(c_slot)
                    },
                }
            },
    {
        if !self.inbox.contains_key(&c_slot) {
            return Some(Err(ClientError::NoSuchSlot));
        }
        match self.pop(c_slot) {
            Some(message) => Some(self.accept_reply(c_slot, message)),
            None => None,
        }
    }

    /// Return the expected c_slot given a (possibly subscribed) s_slot
    pub fn get_c_slot(&self, s_slot: u16) -> (c_slot: Option<u16>)
        ensures
            c_slot == (if self@.slot_map.contains_key(s_slot) {
                Some(self@.slot_map[s_slot])
            } else {
                None
            }),
    {
        match self.slot_map.get(&s_slot) {
            Some(c_slot) => Some(*c_slot),
            None => None,
        }
    }

    /// The next message about the task in `s_slot`. There is none if no message waits.
    pub fn try_recv(&mut self, s_slot: u16) -> (message: Result<Option<BoxcarMessage>, ClientError>)
        ensures
            match message {
                Ok(message) => {
                    let c_slot = old(self)@.slot_map[s_slot];
                    &&& old(self)@.follows(s_slot)
                    &&& final(self)@ == old(self)@.popped(c_slot)
                    &&& match message {
                        Some(message) => old(self)@.first(c_slot) == Some(message@),
                        None => old(self)@.first(c_slot) is None,
                    }
                },
                Err(error) => {
                    &&& !old(self)@.follows(s_slot)
                    &&& error is NotSubscribed
                    &&& final(self)@ == old(self)@
                },
            },
    {
        if let Some(c_slot) = self.get_c_slot(s_slot) {
            if self.inbox.contains_key(&c_slot) {
                return Ok(self.pop(c_slot));
            }
        }
        Err(ClientError::NotSubscribed)
    }

    /// Does the client expect messages in `c_slot`?
    pub fn expects(&self, c_slot: u16) -> (yes: bool)
        ensures
            yes == self@.inbox.contains_key(c_slot),
    {
        self.inbox.contains_key(&c_slot)
    }

    /// A message came in for `c_slot`. It waits behind those that came in before.
    pub fn deliver(&mut self, c_slot: u16, message: BoxcarMessage) -> (delivery: Delivery)
        requires
            old(self)@.inbox.contains_key(c_slot) ==> old(self)@.inbox[c_slot].len()
                < queue_limit(),
        ensures
            final(self)@ == old(self)@.delivered(c_slot, message@),
            delivery == (if old(self)@.inbox.contains_key(c_slot) {
                Delivery::Queued
            } else {
                Delivery::NoSlot
            }),
    {
        match self.inbox.remove(&c_slot) {
            Some(found) => {
                let mut queue = found;
                let ghost before = queue;
                let ghost text = message@;
                queue_push(&mut queue, message);
                assert(waiting(queue) =~= waiting(before).push(text));
                self.inbox.insert(c_slot, queue);
                assert(self@ =~= old(self)@.delivered(c_slot, text)) by {
                    assert(self@.inbox =~= old(self)@.delivered(c_slot, text).inbox);
                }
                Delivery::Queued
            },
            None => {
                assert(self@ =~= old(self)@) by {
                    assert(self@.inbox =~= old(self)@.inbox);
                }
                Delivery::NoSlot
            },
        }
    }

    /// Handle a message that came in from the server, whatever the slot holds.
    pub fn inbox_handler(&mut self, c_slot: u16, message: BoxcarMessage) -> (delivery: Delivery)
        ensures
            match delivery {
                Delivery::Queued => {
                    &&& old(self)@.inbox.contains_key(c_slot)
                    &&& old(self)@.inbox[c_slot].len() < queue_limit()
                    &&& final(self)@ == old(self)@.delivered(c_slot, message@)
                },
                Delivery::NoSlot => {
                    &&& !old(self)@.inbox.contains_key(c_slot)
                    &&& final(self)@ == old(self)@
                },
                Delivery::Full => {
                    &&& old(self)@.inbox.contains_key(c_slot)
                    &&& old(self)@.inbox[c_slot].len() >= queue_limit()
                    &&& final(self)@ == old(self)@
                },
            },
    {
        if let Some(queue) = self.inbox.get(&c_slot) {
            if queue_len(queue) >= usize::MAX / 8 {
                return Delivery::Full;
            }
        }
        self.deliver(c_slot, message)
    }

    /// Follow the task in `s_slot`: tell the server that this client wants to get its updates. They
    /// come in in the slot of the envelope, which is handed out unless the client follows the task
    /// already. There is nothing to send if no vacant slot was found.
    pub fn subscribe(&mut self, s_slot: u16) -> (envelope: Option<Envelope>)
        ensures
            match envelope {
                Some(envelope) => {
                    &&& envelope.message@ == MessageView::Sub(seq![s_slot])
                    &&& if old(self)@.follows(s_slot) {
                        &&& envelope.c_slot == old(self)@.slot_map[s_slot]
                        &&& final(self)@ == old(self)@
                    } else {
                        &&& settled(random_draw, old(self)@.vacancy(), Some(envelope.c_slot))
                        &&& old(self)@.vacant(envelope.c_slot)
                        &&& final(self)@ == old(self)@.with_slot(envelope.c_slot).following(
                            s_slot,
                            envelope.c_slot,
                        )
                    }
                },
                None => {
                    &&& !old(self)@.follows(s_slot)
                    &&& settled(random_draw, old(self)@.vacancy(), None)
                    &&& final(self)@ == old(self)@
                },
            },
    {
        if let Some(c_slot) = self.get_c_slot(s_slot) {
            if self.inbox.contains_key(&c_slot) {
                return Some(Envelope { c_slot, message: BoxcarMessage::Sub(single(s_slot)) });
            }
        }
        let slot = self.allocate_slot();
        self.subscribe_from(s_slot, slot)
    }

    /// Follow the task in `s_slot` from the slot that was found for its updates. There is nothing
    /// to send if none was found.
    pub fn subscribe_from(&mut self, s_slot: u16, slot: Option<u16>) -> (envelope: Option<Envelope>)
        ensures
            match slot {
                Some(c_slot) => {
                    &&& envelope is Some
                    &&& envelope->0@ == (EnvelopeView {
                        c_slot,
                        message: MessageView::Sub(seq![s_slot]),
                    })
                    &&& final(self)@ == old(self)@.following(s_slot, c_slot)
                },
                None => envelope is None && final(self)@ == old(self)@,
            },
    {
        if let Some(c_slot) = slot {
            self.slot_map.insert(s_slot, c_slot);
            assert(self@ =~= old(self)@.following(s_slot, c_slot));
        }
        Self::address(slot, BoxcarMessage::Sub(single(s_slot)))
    }

    /// Stop following the task in `s_slot`, and tell the server.
    pub fn unsubscribe(&mut self, s_slot: u16) -> (envelope: Result<Envelope, ClientError>)
        ensures
            match envelope {
                Ok(envelope) => {
                    &&& old(self)@.slot_map.contains_key(s_slot)
                    &&& envelope.c_slot == old(self)@.slot_map[s_slot]
                    &&& envelope.message@ == MessageView::UnSub(seq![s_slot])
                    &&& final(self)@ == old(self)@.leaving(s_slot)
                },
                Err(error) => {
                    &&& !old(self)@.slot_map.contains_key(s_slot)
                    &&& error is NotSubscribed
                    &&& final(self)@ == old(self)@
                },
            },
    {
        match self.slot_map.remove(&s_slot) {
            Some(c_slot) => {
                Ok(Envelope { c_slot, message: BoxcarMessage::UnSub(single(s_slot)) })
            },
            None => {
                assert(self@.slot_map =~= old(self)@.slot_map);
                Err(ClientError::NotSubscribed)
            },
        }
    }

    /// Ask the server for the last recorded result of a task that the client follows.
    pub fn refresh(&self, s_slot: u16) -> (envelope: Result<Envelope, ClientError>)
        ensures
            match envelope {
                Ok(envelope) => {
                    &&& self@.slot_map.contains_key(s_slot)
                    &&& envelope@ == (EnvelopeView {
                        c_slot: self@.slot_map[s_slot],
                        message: MessageView::RpcReqRslt(s_slot),
                    })
                },
                Err(error) => {
                    &&& !self@.slot_map.contains_key(s_slot)
                    &&& error is NotSubscribed
                },
            },
    {
        match self.get_c_slot(s_slot) {
            Some(c_slot) => Ok(Envelope { c_slot, message: BoxcarMessage::RpcReqRslt(s_slot) }),
            None => Err(ClientError::NotSubscribed),
        }
    }

    /// Close the client.
    ///
    /// 1. Un-subscribe from all slots
    /// 2. Notify the server we're shutting down
    ///
    /// No answer is expected to the notice, so it goes out from the slot that is reserved for
    /// unsolicited communication.
    pub fn close(self) -> (farewell: Farewell)
        ensures
            settled(
                random_draw,
                self@.vacancy(),
                match farewell.unsub {
                    Some(envelope) => Some(envelope.c_slot),
                    None => None,
                },
            ),
            farewell.unsub matches Some(envelope) ==> {
                &&& self@.vacant(envelope.c_slot)
                &&& envelope.message@ matches MessageView::UnSub(slots) && {
                    &&& slots.no_duplicates()
                    &&& slots.to_set() == self@.slot_map.dom()
                }
            },
            farewell.hangup@ == (EnvelopeView { c_slot: 0, message: MessageView::Hangup }),
    {
        let mut client = self;
        let slot = client.allocate_slot();
        client.close_from(slot)
    }

    /// Close the client, given the slot that was found for the answer to the last message that
    /// expects one.
    pub fn close_from(self, slot: Option<u16>) -> (farewell: Farewell)
        ensures
            match slot {
                Some(c_slot) => {
                    &&& farewell.unsub is Some
                    &&& farewell.unsub->0.c_slot == c_slot
                    &&& farewell.unsub->0.message@ matches MessageView::UnSub(slots) && {
                        &&& slots.no_duplicates()
                        &&& slots.to_set() == self@.slot_map.dom()
                    }
                },
                None => farewell.unsub is None,
            },
            farewell.hangup@ == (EnvelopeView { c_slot: 0, message: MessageView::Hangup }),
    {
        let slots = self.followed();
        Farewell {
            unsub: Self::address(slot, BoxcarMessage::UnSub(slots)),
            hangup: Envelope { c_slot: 0, message: BoxcarMessage::Hangup },
        }
    }

    /// The slots of the tasks that the client follows.
    fn followed(&self) -> (slots: Vec<u16>)
        ensures
            slots@.no_duplicates(),
            slots@.to_set() == self@.slot_map.dom(),
    {
        let mut slots: Vec<u16> = Vec::new();
        for s_slot in iter: self.slot_map.keys()
            invariant
                slots@.len() == iter.index(),
                forall|i: int| 0 <= i < slots@.len() ==> slots@[i] == *iter.seq()[i],
                iter.seq().no_duplicates(),
                iter.seq().unref().to_set() == self.slot_map@.dom(),
                iter.index() == iter.seq().len() ==> slots@ == iter.seq().unref(),
        {
            slots.push(*s_slot);
        }
        slots
    }
}

/// If a client found no slot, as many draws as are made were made, and each of them hit slot 0 or a
/// slot that was handed out before.
pub proof fn all_draws_of_client_missed<F: Fn(u32) -> u16>(source: F, client: ClientView) -> (draws:
    Seq<u16>)
    requires
        settled(source, client.vacancy(), None),
    ensures
        draws.len() == 1026,
        forall|i: int|
            0 <= i < draws.len() ==> call_ensures(source, (i as u32,), #[trigger] draws[i]) && (
            draws[i] == 0 || client.inbox.contains_key(draws[i])),
{
    let draws = choose|draws: Seq<u16>|
        {
            &&& #[trigger] drawn(source, draws)
            &&& draws.len() == MAX_DEPTH + 2
            &&& forall|i: int| 0 <= i < draws.len() ==> !(client.vacancy())(#[trigger] draws[i])
        };
    assert forall|i: int| 0 <= i < draws.len() implies call_ensures(
        source,
        (i as u32,),
        #[trigger] draws[i],
    ) && (draws[i] == 0 || client.inbox.contains_key(draws[i])) by {
        assert(!(client.vacancy())(draws[i]));
    }
    draws
}

/// A slot that a client found is vacant, and was drawn after draws that all missed.
pub proof fn vacant_draw_of_client_was_found<F: Fn(u32) -> u16>(
    source: F,
    client: ClientView,
    slot: u16,
) -> (draws: Seq<u16>)
    requires
        settled(source, client.vacancy(), Some(slot)),
    ensures
        slot != 0,
        !client.inbox.contains_key(slot),
        0 < draws.len() <= 1026,
        draws[draws.len() - 1] == slot,
        forall|i: int|
            0 <= i < draws.len() ==> call_ensures(source, (i as u32,), #[trigger] draws[i]),
        forall|i: int|
            0 <= i < draws.len() - 1 ==> #[trigger] draws[i] == 0 || client.inbox.contains_key(
                draws[i],
            ),
{
    let draws = choose|draws: Seq<u16>|
        {
            &&& #[trigger] drawn(source, draws)
            &&& 0 < draws.len() <= MAX_DEPTH + 2
            &&& forall|i: int|
                0 <= i < draws.len() - 1 ==> !(client.vacancy())(#[trigger] draws[i])
            &&& draws.last() == slot
            &&& (client.vacancy())(slot)
        };
    assert forall|i: int| 0 <= i < draws.len() - 1 implies #[trigger] draws[i] == 0
        || client.inbox.contains_key(draws[i]) by {
        assert(!(client.vacancy())(draws[i]));
    }
    draws
}

/// Whatever a client does, slot 0 stays reserved, and a client that is told where the updates of a
/// task come in goes on following it until it leaves it.
pub proof fn client_stays_well_formed(
    client: ClientView,
    c_slot: u16,
    s_slot: u16,
    message: MessageView,
)
    requires
        client.wf(),
    ensures
        client.vacant(c_slot) ==> client.with_slot(c_slot).wf(),
        client.inbox.contains_key(c_slot) ==> client.following(s_slot, c_slot).wf(),
        client.inbox.contains_key(c_slot) ==> client.popped(c_slot).wf(),
        client.delivered(c_slot, message).wf(),
        client.leaving(s_slot).wf(),
        client.follows(s_slot) == client.slot_map.contains_key(s_slot),
{
}

/// Messages come out of a slot in the order in which they came in.
pub proof fn messages_keep_their_order(
    client: ClientView,
    c_slot: u16,
    first: MessageView,
    second: MessageView,
)
    requires
        client.inbox.contains_key(c_slot),
        client.inbox[c_slot].len() == 0,
    ensures
        ({
            let both = client.delivered(c_slot, first).delivered(c_slot, second);
            &&& both.first(c_slot) == Some(first)
            &&& both.popped(c_slot).first(c_slot) == Some(second)
            &&& both.popped(c_slot).popped(c_slot) == client
        }),
{
    let both = client.delivered(c_slot, first).delivered(c_slot, second);
    let none = both.popped(c_slot).popped(c_slot);
    assert(none.inbox[c_slot] =~= client.inbox[c_slot]);
    assert(none.inbox =~= client.inbox);
}

/// A message goes to its own slot only: what waits in the others stays as it is.
pub proof fn slots_are_separate(client: ClientView, c_slot: u16, message: MessageView, other: u16)
    requires
        other != c_slot,
    ensures
        client.delivered(c_slot, message).inbox.contains_key(other)
            == client.inbox.contains_key(other),
        client.inbox.contains_key(other) ==> client.delivered(c_slot, message).inbox[other]
            == client.inbox[other],
{
}

/// A client that calls a method and asks to be subscribed receives what the task reports: first
/// comes the slot of the task, in answer to the call, and then each result, and both come in where
/// the client looks for them.
pub proof fn caller_receives_result<H: HandlerTrait>(
    client: ClientView,
    handlers: Seq<H>,
    call: Envelope,
    before: ServerState,
    after: ServerState,
    reply: Reply,
    result: ResultView,
)
    requires
        client.vacant(call.c_slot),
        call.message matches BoxcarMessage::RpcReq(request) && request.subscribe,
        message_handled(handlers, call, before, after, Some(reply)),
        reply.launch is Some,
    ensures
        ({
            let s_slot = reply.launch->0.s_slot;
            let answered = client.with_slot(call.c_slot).delivered(
                reply.envelope.c_slot,
                reply.envelope.message@,
            );
            let caller = answered.popped(call.c_slot).following(s_slot, call.c_slot);
            let update = relayed(after.subscriptions, s_slot, result);
            let updated = caller.delivered(update->0.c_slot, update->0.message);
            &&& answered.first(call.c_slot) == Some(MessageView::RpcReqSlot(s_slot))
            &&& update is Some
            &&& updated.follows(s_slot)
            &&& updated.first(updated.slot_map[s_slot]) == Some(
                MessageView::RpcRslt(s_slot, result),
            )
        }),
{
}

/// Once the server has handled what a client sends when it closes, nothing of the tasks that the
/// client followed is passed on to it any more.
pub proof fn closed_client_gets_nothing(
    client: ClientView,
    slots: Seq<u16>,
    subscriptions: Map<u16, u16>,
    s_slot: u16,
    result: ResultView,
)
    requires
        slots.to_set() == client.slot_map.dom(),
        client.slot_map.contains_key(s_slot),
    ensures
        relayed(unsubscribed(subscriptions, slots), s_slot, result) is None,
{
    assert(slots.to_set().contains(s_slot));
}

/// A client can come back later for a result of a task that another client requested: it
/// subscribes to the task, and may ask again for the last recorded result. It receives that result
/// in answer to both, and then whatever the task goes on to report.
pub proof fn late_client_receives_result(
    client: ClientView,
    c_slot: u16,
    s_slot: u16,
    executor: ExecutorView,
    result: ResultView,
    events: Seq<Event>,
    subscriptions: Map<u16, u16>,
    next: ResultView,
)
    requires
        client.vacant(c_slot),
        !subscriptions.contains_key(s_slot),
        executor.wf(),
        executor.tasks.contains_key(s_slot),
        executor.after(Event::Reported { s_slot, result }).admits_all(events),
        forall|i: int|
            0 <= i < events.len() ==> !((#[trigger] events[i]) is Reported
                && events[i]->Reported_s_slot == s_slot),
    ensures
        ({
            let tasks = executor.after(Event::Reported { s_slot, result }).after_all(events).tasks;
            let update = relayed(subscribed(subscriptions, seq![s_slot], c_slot), s_slot, next);
            let late = client.with_slot(c_slot).following(s_slot, c_slot).delivered(
                c_slot,
                sub_answer(tasks, seq![s_slot]),
            ).delivered(c_slot, result_answer(tasks, s_slot)).delivered(
                update->0.c_slot,
                update->0.message,
            );
            &&& late.follows(s_slot)
            &&& late.slot_map[s_slot] == c_slot
            &&& late.first(c_slot) == Some(MessageView::RpcRslt(s_slot, result))
            &&& late.popped(c_slot).first(c_slot) == Some(MessageView::RpcRslt(s_slot, result))
            &&& late.popped(c_slot).popped(c_slot).first(c_slot) == Some(
                MessageView::RpcRslt(s_slot, next),
            )
        }),
{
    last_report_is_on_record(executor, s_slot, result, events);
    subscriber_gets_last_result(
        executor.after(Event::Reported { s_slot, result }).after_all(events).tasks,
        s_slot,
    );
    assert(seq![s_slot][0] == s_slot);
    assert(seq![s_slot].contains(s_slot));
}

} // verus!
