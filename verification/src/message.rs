//! What clients and servers say to each other.
use crate::names::NameMap;
use crate::rcm::ResourceError;
use crate::utils::CodecError;
use vstd::prelude::*;

verus! {

/// A message that can be written to, and read from, a buffer of bytes.
pub trait BoxcarMessageTrait {
    fn encode(&self, buf: &mut Vec<u8>) -> Result<(), CodecError>;

    fn decode(&self, buf: Vec<u8>) -> Result<(), CodecError>;
}

/// A group of methods that a server can run.
///
/// Nothing is promised of an implementation: `contains` may answer differently each time it is
/// asked.
pub trait HandlerTrait {
    /// Does the handler run `method`?
    fn contains(&self, method: &str) -> bool;

    /// The name of the group.
    fn package(&self) -> &str;
}

/// One frame on the wire: the client's communication slot and an encoded message.
#[derive(PartialEq, Debug)]
pub struct WireMessage {
    pub c_slot: u16,
    pub inner: Vec<u8>,
}

#[verifier::ext_equal]
pub struct WireView {
    pub c_slot: u16,
    pub inner: Seq<u8>,
}

impl View for WireMessage {
    type V = WireView;

    open spec fn view(&self) -> WireView {
        WireView { c_slot: self.c_slot, inner: self.inner@ }
    }
}

impl Clone for WireMessage {
    fn clone(&self) -> (copy: Self)
        ensures
            copy@ == self@,
    {
        WireMessage { c_slot: self.c_slot, inner: copy_bytes(&self.inner) }
    }
}

/// What a web socket hands over: a packet of bytes, or anything else (text, ping, pong, close).
pub enum Packet {
    Binary(Vec<u8>),
    Other,
}

/// A message, and the communication slot that it comes from or goes to.
#[derive(Debug)]
pub struct Envelope {
    pub c_slot: u16,
    pub message: BoxcarMessage,
}

pub struct EnvelopeView {
    pub c_slot: u16,
    pub message: MessageView,
}

impl View for Envelope {
    type V = EnvelopeView;

    open spec fn view(&self) -> EnvelopeView {
        EnvelopeView { c_slot: self.c_slot, message: self.message@ }
    }
}

impl Clone for Envelope {
    fn clone(&self) -> (copy: Self)
        ensures
            copy@ == self@,
    {
        Envelope { c_slot: self.c_slot, message: self.message.clone() }
    }
}

#[derive(Debug)]
pub enum BoxcarMessage {
    /// Initiate an RPC
    RpcReq(RpcRequest),
    /// The server slot in which a requested RPC runs
    RpcReqSlot(u16),
    /// RPC Status
    RpcRslt((u16, RpcResult)),
    /// Subscribe to s_slot
    Sub(Vec<u16>),
    /// Unsubscribe from s_slot
    UnSub(Vec<u16>),
    ServerError(String),
    Hangup,
    Ping(u8),
    Pong(u8),
    /// Ask for the last recorded result of s_slot
    RpcReqRslt(u16),
    /// A subscription request was handled. Says if it changed anything
    SubOpFin(bool),
    /// The resources that a request asks for cannot be given
    ResourceError(ResourceError),
}

pub enum MessageView {
    RpcReq(RequestView),
    RpcReqSlot(u16),
    RpcRslt(u16, ResultView),
    Sub(Seq<u16>),
    UnSub(Seq<u16>),
    ServerError(Seq<char>),
    Hangup,
    Ping(u8),
    Pong(u8),
    RpcReqRslt(u16),
    SubOpFin(bool),
    ResourceError(ResourceError),
}

impl View for BoxcarMessage {
    type V = MessageView;

    open spec fn view(&self) -> MessageView {
        match *self {
            BoxcarMessage::RpcReq(request) => MessageView::RpcReq(request@),
            BoxcarMessage::RpcReqSlot(s_slot) => MessageView::RpcReqSlot(s_slot),
            BoxcarMessage::RpcRslt(result) => MessageView::RpcRslt(result.0, result.1@),
            BoxcarMessage::Sub(slots) => MessageView::Sub(slots@),
            BoxcarMessage::UnSub(slots) => MessageView::UnSub(slots@),
            BoxcarMessage::ServerError(text) => MessageView::ServerError(text@),
            BoxcarMessage::Hangup => MessageView::Hangup,
            BoxcarMessage::Ping(num) => MessageView::Ping(num),
            BoxcarMessage::Pong(num) => MessageView::Pong(num),
            BoxcarMessage::RpcReqRslt(s_slot) => MessageView::RpcReqRslt(s_slot),
            BoxcarMessage::SubOpFin(changed) => MessageView::SubOpFin(changed),
            BoxcarMessage::ResourceError(error) => MessageView::ResourceError(error),
        }
    }
}

impl Clone for BoxcarMessage {
    fn clone(&self) -> (copy: Self)
        ensures
            copy@ == self@,
    {
        match self {
            BoxcarMessage::RpcReq(request) => BoxcarMessage::RpcReq(request.clone()),
            BoxcarMessage::RpcReqSlot(s_slot) => BoxcarMessage::RpcReqSlot(*s_slot),
            BoxcarMessage::RpcRslt(result) => BoxcarMessage::RpcRslt((result.0, result.1.clone())),
            BoxcarMessage::Sub(slots) => BoxcarMessage::Sub(copy_slots(slots)),
            BoxcarMessage::UnSub(slots) => BoxcarMessage::UnSub(copy_slots(slots)),
            BoxcarMessage::ServerError(text) => BoxcarMessage::ServerError(text.clone()),
            BoxcarMessage::Hangup => BoxcarMessage::Hangup,
            BoxcarMessage::Ping(num) => BoxcarMessage::Ping(*num),
            BoxcarMessage::Pong(num) => BoxcarMessage::Pong(*num),
            BoxcarMessage::RpcReqRslt(s_slot) => BoxcarMessage::RpcReqRslt(*s_slot),
            BoxcarMessage::SubOpFin(changed) => BoxcarMessage::SubOpFin(*changed),
            BoxcarMessage::ResourceError(error) => BoxcarMessage::ResourceError(*error),
        }
    }
}

#[derive(Debug)]
pub struct RpcRequest {
    pub method: String,
    pub body: Vec<u8>,
    /// Send every result of the task to the communication slot of the request
    pub subscribe: bool,
    /// The resources that the task needs for as long as it runs
    pub resources: NameMap<usize>,
}

pub struct RequestView {
    pub method: Seq<char>,
    pub body: Seq<u8>,
    pub subscribe: bool,
    pub resources: Map<Seq<char>, usize>,
}

impl View for RpcRequest {
    type V = RequestView;

    open spec fn view(&self) -> RequestView {
        RequestView {
            method: self.method@,
            body: self.body@,
            subscribe: self.subscribe,
            resources: self.resources@,
        }
    }
}

impl Clone for RpcRequest {
    fn clone(&self) -> (copy: Self)
        ensures
            copy@ == self@,
            copy.resources.order() == self.resources.order(),
    {
        let resources = self.resources.clone();
        assert(resources@ =~= self.resources@);
        RpcRequest {
            method: self.method.clone(),
            body: copy_bytes(&self.body),
            subscribe: self.subscribe,
            resources,
        }
    }
}

/// enum to represent the state of an RPC
#[derive(Debug)]
pub enum RpcResult {
    /// The task has not produced anything yet
    Pending,
    Success(Vec<u8>),
    Failure(Vec<u8>),
}

pub enum ResultView {
    Pending,
    Success(Seq<u8>),
    Failure(Seq<u8>),
}

impl View for RpcResult {
    type V = ResultView;

    open spec fn view(&self) -> ResultView {
        match *self {
            RpcResult::Pending => ResultView::Pending,
            RpcResult::Success(bytes) => ResultView::Success(bytes@),
            RpcResult::Failure(bytes) => ResultView::Failure(bytes@),
        }
    }
}

impl Clone for RpcResult {
    fn clone(&self) -> (copy: Self)
        ensures
            copy@ == self@,
    {
        match self {
            RpcResult::Pending => RpcResult::Pending,
            RpcResult::Success(bytes) => RpcResult::Success(copy_bytes(bytes)),
            RpcResult::Failure(bytes) => RpcResult::Failure(copy_bytes(bytes)),
        }
    }
}

pub(crate) fn copy_bytes(bytes: &Vec<u8>) -> (copy: Vec<u8>)
    ensures
        copy@ == bytes@,
{
    let copy = bytes.clone();
    assert(copy@ =~= bytes@);
    copy
}

fn copy_slots(slots: &Vec<u16>) -> (copy: Vec<u16>)
    ensures
        copy@ == slots@,
{
    let copy = slots.clone();
    assert(copy@ =~= slots@);
    copy
}

/// Represents an executing RPC Job
#[derive(Debug)]
pub struct RPCTask {
    pub request: RpcRequest,
    pub result: RpcResult,
}

pub struct TaskView {
    pub request: RequestView,
    pub result: ResultView,
}

impl View for RPCTask {
    type V = TaskView;

    open spec fn view(&self) -> TaskView {
        TaskView { request: self.request@, result: self.result@ }
    }
}

impl Clone for RPCTask {
    fn clone(&self) -> (copy: Self)
        ensures
            copy@ == self@,
    {
        RPCTask { request: self.request.clone(), result: self.result.clone() }
    }
}

} // verus!
