//! What messages say: two that look alike in contracts are alike in all that they hold.
use crate::message::{
    BoxcarMessage, Envelope, RPCTask, RpcRequest, RpcResult, WireMessage,
};
use crate::registry::InstanceRegistration;
use vstd::prelude::*;

verus! {

/// The two results are alike.
pub open spec fn same_result(a: RpcResult, b: RpcResult) -> bool {
    match (a, b) {
        (RpcResult::Pending, RpcResult::Pending) => true,
        (RpcResult::Success(x), RpcResult::Success(y)) => x@ == y@,
        (RpcResult::Failure(x), RpcResult::Failure(y)) => x@ == y@,
        _ => false,
    }
}

/// The two requests are alike.
pub open spec fn same_request(a: RpcRequest, b: RpcRequest) -> bool {
    &&& a.method@ == b.method@
    &&& a.body@ == b.body@
    &&& a.subscribe == b.subscribe
    &&& a.resources@ == b.resources@
}

/// The two messages are alike.
pub open spec fn same_message(a: BoxcarMessage, b: BoxcarMessage) -> bool {
    match (a, b) {
        (BoxcarMessage::RpcReq(x), BoxcarMessage::RpcReq(y)) => same_request(x, y),
        (BoxcarMessage::RpcReqSlot(x), BoxcarMessage::RpcReqSlot(y)) => x == y,
        (BoxcarMessage::RpcRslt(x), BoxcarMessage::RpcRslt(y)) => x.0 == y.0 && same_result(
            x.1,
            y.1,
        ),
        (BoxcarMessage::Sub(x), BoxcarMessage::Sub(y)) => x@ == y@,
        (BoxcarMessage::UnSub(x), BoxcarMessage::UnSub(y)) => x@ == y@,
        (BoxcarMessage::ServerError(x), BoxcarMessage::ServerError(y)) => x@ == y@,
        (BoxcarMessage::Hangup, BoxcarMessage::Hangup) => true,
        (BoxcarMessage::Ping(x), BoxcarMessage::Ping(y)) => x == y,
        (BoxcarMessage::Pong(x), BoxcarMessage::Pong(y)) => x == y,
        (BoxcarMessage::RpcReqRslt(x), BoxcarMessage::RpcReqRslt(y)) => x == y,
        (BoxcarMessage::SubOpFin(x), BoxcarMessage::SubOpFin(y)) => x == y,
        (BoxcarMessage::ResourceError(x), BoxcarMessage::ResourceError(y)) => x == y,
        _ => false,
    }
}

/// Results have the same view exactly if they are alike.
pub proof fn results_are_told_apart(a: RpcResult, b: RpcResult)
    ensures
        a@ == b@ <==> same_result(a, b),
{
}

/// Requests have the same view exactly if they are alike.
pub proof fn requests_are_told_apart(a: RpcRequest, b: RpcRequest)
    ensures
        a@ == b@ <==> same_request(a, b),
{
}

/// Messages have the same view exactly if they are alike.
pub proof fn messages_are_told_apart(a: BoxcarMessage, b: BoxcarMessage)
    ensures
        a@ == b@ <==> same_message(a, b),
{
}

/// Envelopes, frames and tasks have the same view exactly if all that they hold is alike.
pub proof fn envelopes_frames_and_tasks_are_told_apart(
    a: Envelope,
    b: Envelope,
    x: WireMessage,
    y: WireMessage,
    s: RPCTask,
    t: RPCTask,
)
    ensures
        a@ == b@ <==> a.c_slot == b.c_slot && same_message(a.message, b.message),
        x@ == y@ <==> x.c_slot == y.c_slot && x.inner@ == y.inner@,
        s@ == t@ <==> same_request(s.request, t.request) && same_result(s.result, t.result),
{
    messages_are_told_apart(a.message, b.message);
    requests_are_told_apart(s.request, t.request);
    results_are_told_apart(s.result, t.result);
}

/// The view of a message is of the kind that the message is of, and holds what the message holds.
pub proof fn views_show_what_is_there(message: BoxcarMessage)
    ensures
        message matches BoxcarMessage::RpcReq(request) ==> message@ is RpcReq && {
            &&& message@->RpcReq_0.method == request.method@
            &&& message@->RpcReq_0.body == request.body@
            &&& message@->RpcReq_0.subscribe == request.subscribe
            &&& message@->RpcReq_0.resources == request.resources@
        },
        message matches BoxcarMessage::RpcReqSlot(s) ==> message@ is RpcReqSlot
            && message@->RpcReqSlot_0 == s,
        message matches BoxcarMessage::RpcRslt(r) ==> message@ is RpcRslt && message@->RpcRslt_0
            == r.0 && message@->RpcRslt_1 == r.1@,
        message matches BoxcarMessage::Sub(slots) ==> message@ is Sub && message@->Sub_0 == slots@,
        message matches BoxcarMessage::UnSub(slots) ==> message@ is UnSub && message@->UnSub_0
            == slots@,
        message matches BoxcarMessage::ServerError(text) ==> message@ is ServerError
            && message@->ServerError_0 == text@,
        message is Hangup ==> message@ is Hangup,
        message matches BoxcarMessage::Ping(n) ==> message@ is Ping && message@->Ping_0 == n,
        message matches BoxcarMessage::Pong(n) ==> message@ is Pong && message@->Pong_0 == n,
        message matches BoxcarMessage::RpcReqRslt(s) ==> message@ is RpcReqRslt
            && message@->RpcReqRslt_0 == s,
        message matches BoxcarMessage::SubOpFin(c) ==> message@ is SubOpFin && message@->SubOpFin_0
            == c,
        message matches BoxcarMessage::ResourceError(e) ==> message@ is ResourceError
            && message@->ResourceError_0 == e,
{
}

/// Results that are there are seen as what they are.
pub proof fn result_views_show_what_is_there(result: RpcResult)
    ensures
        result is Pending <==> result@ is Pending,
        result matches RpcResult::Success(bytes) ==> result@ is Success && result@->Success_0
            == bytes@,
        result matches RpcResult::Failure(bytes) ==> result@ is Failure && result@->Failure_0
            == bytes@,
{
}

/// Registrations have the same view exactly if all that they hold is alike.
pub proof fn registrations_are_told_apart(a: InstanceRegistration, b: InstanceRegistration)
    ensures
        a@ == b@ <==> {
            &&& a.id@ == b.id@
            &&& a.addr@ == b.addr@
            &&& a.port == b.port
            &&& a.proto@ == b.proto@
            &&& a.resources@ == b.resources@
            &&& forall|name: Seq<char>| #[trigger]
                a.meta@.contains_key(name) == b.meta@.contains_key(name)
            &&& forall|name: Seq<char>| #[trigger]
                a.meta@.contains_key(name) ==> a.meta@[name]@ == b.meta@[name]@
        },
{
    if a@ == b@ {
        assert forall|name: Seq<char>| #[trigger] a.meta@.contains_key(name)
            == b.meta@.contains_key(
            name,
        ) by {
            assert(a@.meta.contains_key(name) == b@.meta.contains_key(name));
        }
        assert forall|name: Seq<char>| #[trigger] a.meta@.contains_key(name) implies a.meta@[name]@
            == b.meta@[name]@ by {
            assert(a@.meta[name] == b@.meta[name]);
        }
    } else {
        if a.id@ == b.id@ && a.addr@ == b.addr@ && a.port == b.port && a.proto@ == b.proto@
            && a.resources@ == b.resources@ && (forall|name: Seq<char>| #[trigger]
            a.meta@.contains_key(name) == b.meta@.contains_key(name)) && (forall|
            name: Seq<char>,
        | #[trigger] a.meta@.contains_key(name) ==> a.meta@[name]@ == b.meta@[name]@) {
            assert(a@.meta =~= b@.meta);
        }
    }
}

} // verus!
