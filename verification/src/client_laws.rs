//! What a client does, in terms of what it is told and what comes out.
use crate::client::{
    all_draws_of_client_missed, vacant_draw_of_client_was_found, Client, ClientError, ClientView,
    Delivery, Farewell,
};
use crate::message::{BoxcarMessage, Envelope, MessageView, RpcRequest};
use crate::slots::random_draw;
use vstd::prelude::*;

verus! {

/// No slot was found for a client: every one of all the draws that are made hit slot 0 or a slot
/// that was handed out before.
pub open spec fn no_slot_was_drawn(client: ClientView) -> bool {
    exists|draws: Seq<u16>|
        {
            &&& #[trigger] draws.len() == 1026
            &&& forall|i: int|
                0 <= i < 1026 ==> call_ensures(random_draw, (i as u32,), #[trigger] draws[i]) && (
                draws[i] == 0 || client.inbox.contains_key(draws[i]))
        }
}

/// A slot was handed out: it is new, nothing waits in it, and everything else is as it was.
pub open spec fn handed_out(before: ClientView, after: ClientView, c_slot: u16) -> bool {
    &&& c_slot != 0
    &&& !before.inbox.contains_key(c_slot)
    &&& after.inbox.contains_key(c_slot)
    &&& after.inbox[c_slot].len() == 0
    &&& forall|c: u16|
        c != c_slot ==> (#[trigger] after.inbox.contains_key(c) <==> before.inbox.contains_key(c))
    &&& forall|c: u16|
        c != c_slot && #[trigger] before.inbox.contains_key(c) ==> after.inbox[c]
            == before.inbox[c]
    &&& after.slot_map == before.slot_map
}

/// A client finds a new slot, unless every draw missed.
pub proof fn slots_are_found(client: &mut Client, slot: Option<u16>)
    requires
        call_ensures(Client::allocate_slot, (client,), slot),
    ensures
        slot is None ==> no_slot_was_drawn(old(client)@) && final(client)@ == old(client)@,
        slot is Some ==> handed_out(old(client)@, final(client)@, slot->0),
{
    if slot is None {
        let draws = all_draws_of_client_missed(random_draw, old(client)@);
        assert(draws.len() == 1026);
    }
}

/// A client that draws from a source takes the first draw that is vacant, and gives up only after
/// all draws missed.
pub proof fn first_vacant_draw_is_used<F: Fn(u32) -> u16>(
    client: &mut Client,
    source: F,
    slot: Option<u16>,
) -> (draws: Seq<u16>)
    requires
        call_ensures(Client::allocate_from::<F>, (client, source), slot),
    ensures
        forall|i: int|
            0 <= i < draws.len() ==> call_ensures(source, (i as u32,), #[trigger] draws[i]),
        slot is None ==> draws.len() == 1026 && final(client)@ == old(client)@ && forall|i: int|
            0 <= i < draws.len()
                ==> #[trigger] draws[i] == 0 || old(client)@.inbox.contains_key(draws[i]),
        slot is Some ==> {
            &&& 0 < draws.len() <= 1026
            &&& draws[draws.len() - 1] == slot->0
            &&& handed_out(old(client)@, final(client)@, slot->0)
            &&& forall|i: int|
                0 <= i < draws.len() - 1
                    ==> #[trigger] draws[i] == 0 || old(client)@.inbox.contains_key(draws[i])
        },
{
    match slot {
        None => all_draws_of_client_missed(source, old(client)@),
        Some(s) => vacant_draw_of_client_was_found(source, old(client)@, s),
    }
}

/// A slot is handed out when it is asked for exactly if it is not 0 and was not handed out before.
pub proof fn slots_are_taken_once(client: &mut Client, slot: u16, vacant: bool)
    requires
        call_ensures(Client::take_slot, (client, slot), vacant),
    ensures
        vacant <==> slot != 0 && !old(client)@.inbox.contains_key(slot),
        vacant ==> handed_out(old(client)@, final(client)@, slot),
        !vacant ==> final(client)@ == old(client)@,
{
}

/// Every message is sent, from a slot of its own, unless no slot could be drawn. Whether it is does
/// not depend on the message.
pub proof fn messages_are_sent(client: &mut Client, message: BoxcarMessage, sent: Option<Envelope>)
    requires
        call_ensures(Client::send, (client, message), sent),
    ensures
        sent is None ==> no_slot_was_drawn(old(client)@) && final(client)@ == old(client)@,
        sent is Some ==> sent->0.message == message && handed_out(
            old(client)@,
            final(client)@,
            sent->0.c_slot,
        ),
{
    if sent is None {
        let draws = all_draws_of_client_missed(random_draw, old(client)@);
        assert(draws.len() == 1026);
    }
}

/// Every call is sent, with the very request, from a slot of its own, unless no slot could be
/// drawn. Whether it is does not depend on the request.
pub proof fn calls_are_sent(client: &mut Client, request: RpcRequest, sent: Option<Envelope>)
    requires
        call_ensures(Client::call, (client, request), sent),
    ensures
        sent is None ==> no_slot_was_drawn(old(client)@) && final(client)@ == old(client)@,
        sent is Some ==> sent->0.message == BoxcarMessage::RpcReq(request) && handed_out(
            old(client)@,
            final(client)@,
            sent->0.c_slot,
        ),
{
    if sent is None {
        let draws = all_draws_of_client_missed(random_draw, old(client)@);
        assert(draws.len() == 1026);
    }
}

/// A message is addressed from the slot that was found for it, whatever the message is.
pub proof fn addressing_keeps_slot_and_message(
    slot: Option<u16>,
    message: BoxcarMessage,
    envelope: Option<Envelope>,
)
    requires
        call_ensures(Client::address, (slot, message), envelope),
    ensures
        envelope is Some <==> slot is Some,
        slot is Some ==> envelope->0.c_slot == slot->0 && envelope->0.message == message,
{
}

/// The updates of the task in `s_slot` are expected in `c_slot`, and everything else is as it was.
pub open spec fn followed(
    before: ClientView,
    after: ClientView,
    s_slot: u16,
    c_slot: u16,
) -> bool {
    &&& after.inbox == before.inbox
    &&& after.slot_map.contains_key(s_slot)
    &&& after.slot_map[s_slot] == c_slot
    &&& forall|s: u16|
        s != s_slot ==> (#[trigger] after.slot_map.contains_key(s)
            <==> before.slot_map.contains_key(s))
    &&& forall|s: u16|
        s != s_slot && #[trigger] before.slot_map.contains_key(s) ==> after.slot_map[s]
            == before.slot_map[s]
}

/// Subscribing asks the server for the updates of that very task, and expects them in the slot that
/// it asks from. A client that follows the task already asks from the slot that it has.
pub proof fn subscriptions_are_asked_for(client: &mut Client, s_slot: u16, sent: Option<Envelope>)
    requires
        call_ensures(Client::subscribe, (client, s_slot), sent),
    ensures
        ({
            let before = old(client)@;
            let after = final(client)@;
            let follows = before.slot_map.contains_key(s_slot) && before.inbox.contains_key(
                before.slot_map[s_slot],
            );
            &&& sent is None ==> !follows && no_slot_was_drawn(before) && after == before
            &&& sent is Some ==> sent->0.message@ == MessageView::Sub(seq![s_slot])
            &&& sent is Some ==> after.slot_map.contains_key(s_slot) && after.slot_map[s_slot]
                == sent->0.c_slot && after.inbox.contains_key(sent->0.c_slot)
            &&& follows ==> sent is Some && after == before
            &&& sent is Some && !follows ==> sent->0.c_slot != 0 && !before.inbox.contains_key(
                sent->0.c_slot,
            )
            &&& forall|s: u16|
                s != s_slot && #[trigger] before.slot_map.contains_key(s)
                    ==> after.slot_map.contains_key(s) && after.slot_map[s] == before.slot_map[s]
            &&& forall|c: u16| #[trigger]
                before.inbox.contains_key(c) ==> after.inbox.contains_key(c) && after.inbox[c]
                    == before.inbox[c]
        }),
{
    if sent is None {
        let draws = all_draws_of_client_missed(random_draw, old(client)@);
        assert(draws.len() == 1026);
    }
}

/// Subscribing from a slot that was found asks from that slot and expects the updates there.
pub proof fn subscriptions_use_the_slot_that_was_found(
    client: &mut Client,
    s_slot: u16,
    slot: Option<u16>,
    sent: Option<Envelope>,
)
    requires
        call_ensures(Client::subscribe_from, (client, s_slot, slot), sent),
    ensures
        sent is Some <==> slot is Some,
        slot is Some ==> {
            &&& sent->0.c_slot == slot->0
            &&& sent->0.message@ == MessageView::Sub(seq![s_slot])
            &&& followed(old(client)@, final(client)@, s_slot, slot->0)
        },
        slot is None ==> final(client)@ == old(client)@,
{
}

/// Unsubscribing tells the server, from the slot in which the updates came in, to send no more of
/// that very task, and nothing is expected of it any more. It is an error exactly if the client
/// does not follow the task.
pub proof fn unsubscribing_is_told(
    client: &mut Client,
    s_slot: u16,
    sent: Result<Envelope, ClientError>,
    other: u16,
)
    requires
        call_ensures(Client::unsubscribe, (client, s_slot), sent),
        other != s_slot,
    ensures
        sent is Ok <==> old(client)@.slot_map.contains_key(s_slot),
        sent is Ok ==> sent->Ok_0.c_slot == old(client)@.slot_map[s_slot],
        sent is Ok ==> sent->Ok_0.message@ == MessageView::UnSub(seq![s_slot]),
        sent is Err ==> sent->Err_0 is NotSubscribed,
        !final(client)@.slot_map.contains_key(s_slot),
        final(client)@.slot_map.contains_key(other) == old(client)@.slot_map.contains_key(other),
        old(client)@.slot_map.contains_key(other)
            ==> final(client)@.slot_map[other] == old(client)@.slot_map[other],
        final(client)@.inbox == old(client)@.inbox,
{
}

/// Asking again asks for the result of that very task, from the slot in which its updates come in.
/// It is an error exactly if the client does not follow the task.
pub proof fn refreshing_asks_for_the_result(
    client: &Client,
    s_slot: u16,
    sent: Result<Envelope, ClientError>,
    c_slot: Option<u16>,
)
    requires
        call_ensures(Client::refresh, (client, s_slot), sent),
        call_ensures(Client::get_c_slot, (client, s_slot), c_slot),
    ensures
        sent is Ok <==> client@.slot_map.contains_key(s_slot),
        c_slot is Some <==> client@.slot_map.contains_key(s_slot),
        c_slot is Some ==> c_slot->0 == client@.slot_map[s_slot],
        sent is Ok ==> sent->Ok_0.c_slot == client@.slot_map[s_slot],
        sent is Ok ==> sent->Ok_0.message@ == MessageView::RpcReqRslt(s_slot),
        sent is Err ==> sent->Err_0 is NotSubscribed,
{
}

/// The message unsubscribes from every task that the client follows, each once, and from no other.
pub open spec fn unsubscribes_from_all(message: BoxcarMessage, client: ClientView) -> bool {
    message@ matches MessageView::UnSub(slots) && {
        &&& forall|s: u16| #[trigger] slots.contains(s) <==> client.slot_map.contains_key(s)
        &&& forall|i: int, j: int|
            0 <= i < j < slots.len() ==> #[trigger] slots[i] != #[trigger] slots[j]
    }
}

/// A client that closes unsubscribes from all tasks that it follows, unless no slot could be drawn,
/// and always hangs up.
pub proof fn closing_is_told(client: Client, farewell: Farewell)
    requires
        call_ensures(Client::close, (client,), farewell),
    ensures
        farewell.unsub is None ==> no_slot_was_drawn(client@),
        farewell.unsub matches Some(envelope) ==> {
            &&& envelope.c_slot != 0
            &&& !client@.inbox.contains_key(envelope.c_slot)
            &&& unsubscribes_from_all(envelope.message, client@)
        },
        farewell.hangup.c_slot == 0,
        farewell.hangup.message@ is Hangup,
{
    match farewell.unsub {
        None => {
            let draws = all_draws_of_client_missed(random_draw, client@);
            assert(draws.len() == 1026);
        },
        Some(envelope) => {
            let slots = envelope.message@->UnSub_0;
            assert forall|s: u16| #[trigger]
                slots.contains(s) <==> client@.slot_map.contains_key(s) by {
                assert(slots.to_set().contains(s) <==> client@.slot_map.dom().contains(s));
            }
        },
    }
}

/// A client that closes from a slot that was found unsubscribes from there, and always hangs up.
pub proof fn closing_uses_the_slot_that_was_found(
    client: Client,
    slot: Option<u16>,
    farewell: Farewell,
)
    requires
        call_ensures(Client::close_from, (client, slot), farewell),
    ensures
        farewell.unsub is Some <==> slot is Some,
        farewell.unsub matches Some(envelope) ==> envelope.c_slot == slot->0
            && unsubscribes_from_all(envelope.message, client@),
        farewell.hangup.c_slot == 0,
        farewell.hangup.message@ is Hangup,
{
    if let Some(envelope) = farewell.unsub {
        let slots = envelope.message@->UnSub_0;
        assert forall|s: u16| #[trigger]
            slots.contains(s) <==> client@.slot_map.contains_key(s) by {
            assert(slots.to_set().contains(s) <==> client@.slot_map.dom().contains(s));
        }
    }
}

/// A message that comes in waits behind all that came in for its slot before it. Nothing is lost
/// and nothing else changes. A message for a slot that was not handed out is ignored.
pub proof fn messages_are_delivered(
    client: &mut Client,
    c_slot: u16,
    message: BoxcarMessage,
    delivery: Delivery,
    other: u16,
)
    requires
        call_ensures(Client::inbox_handler, (client, c_slot, message), delivery),
        other != c_slot,
    ensures
        delivery == Delivery::NoSlot <==> !old(client)@.inbox.contains_key(c_slot),
        delivery == Delivery::Full ==> old(client)@.inbox[c_slot].len() >= usize::MAX / 8,
        delivery == Delivery::Queued ==> {
            &&& final(client)@.inbox.contains_key(c_slot)
            &&& final(client)@.inbox[c_slot] == old(client)@.inbox[c_slot].push(message@)
        },
        delivery != Delivery::Queued ==> final(client)@ == old(client)@,
        final(client)@.inbox.contains_key(other) == old(client)@.inbox.contains_key(other),
        old(client)@.inbox.contains_key(other)
            ==> final(client)@.inbox[other] == old(client)@.inbox[other],
        final(client)@.slot_map == old(client)@.slot_map,
{
}

/// Delivering a message puts it behind all others of its slot, and changes nothing else.
pub proof fn deliveries_go_to_the_back(
    client: &mut Client,
    c_slot: u16,
    message: BoxcarMessage,
    delivery: Delivery,
    other: u16,
)
    requires
        call_ensures(Client::deliver, (client, c_slot, message), delivery),
        other != c_slot,
    ensures
        delivery == Delivery::Queued <==> old(client)@.inbox.contains_key(c_slot),
        delivery == Delivery::Queued
            ==> final(client)@.inbox[c_slot] == old(client)@.inbox[c_slot].push(message@),
        delivery != Delivery::Queued ==> final(client)@ == old(client)@,
        final(client)@.inbox.contains_key(other) == old(client)@.inbox.contains_key(other),
        old(client)@.inbox.contains_key(other)
            ==> final(client)@.inbox[other] == old(client)@.inbox[other],
        final(client)@.slot_map == old(client)@.slot_map,
{
}

/// What is received of a task is the message that came in first of those that wait in its slot, and
/// the others wait on. Nothing is received only if nothing waits. It is an error exactly if the
/// client does not follow the task.
pub proof fn messages_are_received_in_order(
    client: &mut Client,
    s_slot: u16,
    received: Result<Option<BoxcarMessage>, ClientError>,
    other: u16,
)
    requires
        call_ensures(Client::try_recv, (client, s_slot), received),
    ensures
        ({
            let before = old(client)@;
            let after = final(client)@;
            let c_slot = before.slot_map[s_slot];
            &&& received is Ok <==> before.slot_map.contains_key(s_slot)
                && before.inbox.contains_key(c_slot)
            &&& received is Err ==> received->Err_0 is NotSubscribed && after == before
            &&& received is Ok && before.inbox[c_slot].len() == 0 ==> received->Ok_0 is None
                && after == before
            &&& received is Ok && before.inbox[c_slot].len() > 0 ==> {
                &&& received->Ok_0 is Some
                &&& (received->Ok_0->0)@ == before.inbox[c_slot][0]
                &&& after.inbox.contains_key(c_slot)
                &&& seq![before.inbox[c_slot][0]] + after.inbox[c_slot] == before.inbox[c_slot]
            }
            &&& other != c_slot || received is Err ==> after.inbox.contains_key(other)
                == before.inbox.contains_key(other)
            &&& (other != c_slot || received is Err) && before.inbox.contains_key(other)
                ==> after.inbox[other] == before.inbox[other]
            &&& after.slot_map == before.slot_map
        }),
{
    let before = old(client)@;
    let c_slot = before.slot_map[s_slot];
    if received is Ok && before.inbox[c_slot].len() > 0 {
        assert(seq![before.inbox[c_slot][0]] + final(client)@.inbox[c_slot]
            =~= before.inbox[c_slot]);
    }
}

/// The answer to a call is the first message that came in for it. If it names the slot of a task,
/// the client follows that task in the slot of the call. If it is an error, the caller gets its
/// text. There is no answer only while nothing came in.
pub proof fn calls_get_their_answer(
    client: &mut Client,
    c_slot: u16,
    reply: Option<Result<u16, ClientError>>,
)
    requires
        call_ensures(Client::call_reply, (client, c_slot), reply),
    ensures
        ({
            let before = old(client)@;
            let after = final(client)@;
            let waits = before.inbox.contains_key(c_slot) && before.inbox[c_slot].len() > 0;
            let first = before.inbox[c_slot][0];
            &&& reply is None <==> before.inbox.contains_key(c_slot) && !waits
            &&& !before.inbox.contains_key(c_slot) ==> reply is Some && reply->0 is Err
                && reply->0->Err_0 is NoSuchSlot
            &&& !waits ==> after == before
            &&& waits ==> {
                &&& after.inbox.contains_key(c_slot)
                &&& seq![first] + after.inbox[c_slot] == before.inbox[c_slot]
                &&& reply->0 is Ok <==> first is RpcReqSlot
            }
            &&& waits && first is RpcReqSlot ==> {
                &&& reply->0->Ok_0 == first->RpcReqSlot_0
                &&& after.slot_map.contains_key(first->RpcReqSlot_0)
                &&& after.slot_map[first->RpcReqSlot_0] == c_slot
            }
            &&& waits && first is ServerError ==> reply->0->Err_0 is Server && (
            reply->0->Err_0->Server_0)@ == first->ServerError_0
            &&& waits && !(first is RpcReqSlot) ==> after.slot_map == before.slot_map
            &&& waits && !(first is RpcReqSlot) && !(first is ServerError)
                ==> reply->0->Err_0 is Unexpected
        }),
{
    let before = old(client)@;
    if before.inbox.contains_key(c_slot) && before.inbox[c_slot].len() > 0 {
        assert(seq![before.inbox[c_slot][0]] + final(client)@.inbox[c_slot]
            =~= before.inbox[c_slot]);
    }
}

/// A client that takes in the answer to a call follows the task whose slot the answer names, in the
/// slot of the call, and no other.
pub proof fn answers_are_taken_in(
    client: &mut Client,
    c_slot: u16,
    answer: BoxcarMessage,
    s_slot: Result<u16, ClientError>,
)
    requires
        call_ensures(Client::accept_reply, (client, c_slot, answer), s_slot),
    ensures
        s_slot is Ok <==> answer@ is RpcReqSlot,
        s_slot is Ok ==> s_slot->Ok_0 == answer@->RpcReqSlot_0 && followed(
            old(client)@,
            final(client)@,
            s_slot->Ok_0,
            c_slot,
        ),
        s_slot is Err ==> final(client)@ == old(client)@,
        answer@ is ServerError ==> s_slot->Err_0 is Server && (s_slot->Err_0->Server_0)@
            == answer@->ServerError_0,
        s_slot is Err && !(answer@ is ServerError) ==> s_slot->Err_0 is Unexpected,
{
}

/// A new client has handed out no slot and follows no task, and a client expects messages exactly
/// in the slots that it handed out.
pub proof fn slots_are_expected(fresh: Client, client: &Client, c_slot: u16, yes: bool)
    requires
        call_ensures(Client::new, (), fresh),
        call_ensures(Client::expects, (client, c_slot), yes),
    ensures
        !fresh@.inbox.contains_key(c_slot),
        !fresh@.slot_map.contains_key(c_slot),
        yes == client@.inbox.contains_key(c_slot),
{
}

} // verus!
