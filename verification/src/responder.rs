//! The data channel packet processor.
//!
//! The responder runs apart from the real-time part of the link layer, to
//! which two queues connect it. It takes one record at a time from the
//! receive queue, answers LL Control PDUs that the real-time part left to it,
//! and hands L2CAP fragments to the reassembly. It also guards the start of
//! LLCP procedures: one at a time per connection.

use vstd::prelude::*;
use crate::connection::Connection;
use crate::error::Error;
use crate::l2cap::{ChannelMapper, L2CAPState, L2CAPStateTx};
use crate::llcp::{
    handled_by_real_time,
    is_handled_by_real_time,
    ConnectionParamRequest,
    ControlPdu,
    OPCODE_CONNECTION_PARAM_REQ,
    OPCODE_UNKNOWN_RSP,
};
use crate::queue::{Consume, Llid, PacketQueue, Pdu, QueueModel, QueueOp, Record};

verus! {

/// What the answering of one LL Control PDU leaves behind.
pub struct ControlStep {
    /// The receive queue afterwards.
    pub rx: QueueModel,
    /// The transmit queue afterwards.
    pub tx: QueueModel,
    /// What the caller is told.
    pub result: Result<(), Error>,
}

/// The record that rejects a control message with the given opcode: an
/// `LL_UNKNOWN_RSP` that carries the opcode.
pub open spec fn unknown_reply(opcode: u8) -> Record {
    Record { tag: Llid::Control, body: seq![OPCODE_UNKNOWN_RSP, opcode] }
}

/// The record that asks the peer for new connection parameters.
pub open spec fn conn_param_request(params: ConnectionParamRequest) -> Record {
    Record { tag: Llid::Control, body: seq![OPCODE_CONNECTION_PARAM_REQ] + params.encoding() }
}

/// Whether the head of `rx` is a control message that the real-time part
/// answers itself, and which therefore must not be found there.
pub open spec fn head_intercepted(rx: QueueModel) -> bool {
    &&& rx.has_data()
    &&& rx.records[0].tag == Llid::Control
    &&& rx.records[0].body.len() > 0
    &&& handled_by_real_time(rx.records[0].body[0])
}

/// The answering of the control message at the head of `rx`. A message
/// without an opcode is dropped as an error. Any other is rejected with an
/// `LL_UNKNOWN_RSP`: if `tx` takes the reply, the message leaves `rx`; if
/// not, both queues stay as they are, and the message is answered on a later
/// call.
pub open spec fn control_step(rx: QueueModel, tx: QueueModel) -> ControlStep
    recommends
        rx.has_data(),
        rx.records[0].tag == Llid::Control,
        !head_intercepted(rx),
{
    let body = rx.records[0].body;
    if body.len() == 0 {
        ControlStep { rx: rx.pop(), tx, result: Err(Error::InvalidLength) }
    } else if tx.accepts(2) {
        ControlStep { rx: rx.pop(), tx: tx.push(unknown_reply(body[0])), result: Ok(()) }
    } else {
        ControlStep { rx, tx, result: Err(Error::QueueFull) }
    }
}

/// A control message that the responder handles is answered with one
/// `LL_UNKNOWN_RSP` that carries its opcode, or not at all; it leaves the
/// receive queue exactly if the reply entered the transmit queue, and
/// otherwise both queues are as before.
pub proof fn lemma_control_reply(rx: QueueModel, tx: QueueModel)
    requires
        rx.has_data(),
        rx.records[0].tag == Llid::Control,
        rx.records[0].body.len() > 0,
    ensures
        control_step(rx, tx).result is Ok <==> tx.accepts(2),
        control_step(rx, tx).result is Ok ==> control_step(rx, tx).rx == rx.pop() && control_step(
            rx,
            tx,
        ).tx.records == tx.records.push(unknown_reply(rx.records[0].body[0])),
        !(control_step(rx, tx).result is Ok) ==> control_step(rx, tx).rx == rx && control_step(
            rx,
            tx,
        ).tx == tx && control_step(rx, tx).result == Err::<(), Error>(Error::QueueFull),
        unknown_reply(rx.records[0].body[0]).body[1] == rx.records[0].body[0],
{
}

/// A control message that found the transmit queue without room is still at
/// the head of the receive queue. Answered again when the transmit queue has
/// room, it is rejected then: one reply enters the transmit queue and the
/// message leaves.
pub proof fn lemma_control_retry(rx: QueueModel, tx: QueueModel, later: QueueModel)
    requires
        rx.has_data(),
        rx.records[0].tag == Llid::Control,
        rx.records[0].body.len() > 0,
        !tx.accepts(2),
        later.accepts(2),
    ensures
        control_step(rx, tx).rx == rx,
        control_step(rx, tx).tx == tx,
        control_step(control_step(rx, tx).rx, later).result is Ok,
        control_step(control_step(rx, tx).rx, later).rx == rx.pop(),
        control_step(control_step(rx, tx).rx, later).tx.records == later.records.push(
            unknown_reply(rx.records[0].body[0]),
        ),
{
}

/// Data channel packet processor.
pub struct Responder<M: ChannelMapper> {
    /// Records for the real-time part to send.
    pub tx: PacketQueue,
    /// Records that the real-time part has received.
    pub rx: PacketQueue,
    /// Reassembly of the L2CAP messages in `rx`.
    pub l2cap: L2CAPState<M>,
}

impl<M: ChannelMapper> Responder<M> {
    /// Both queues and the reassembly are well-formed.
    pub open spec fn wf(&self) -> bool {
        &&& self.tx.wf()
        &&& self.rx.wf()
        &&& self.l2cap.wf()
    }

    /// What one call of `process_one` does, from the state `before` to the
    /// state `after` with the result `result`.
    pub open spec fn processed(before: Self, after: Self, result: Result<(), Error>) -> bool {
        if !before.rx@.has_data() {
            result == Err::<(), Error>(Error::Eof) && after == before
        } else {
            let head = before.rx@.records[0];
            match head.tag {
                Llid::Control => {
                    let step = control_step(before.rx@, before.tx@);
                    &&& after.rx@ == step.rx
                    &&& after.tx@ == step.tx
                    &&& result == step.result
                    &&& after.l2cap == before.l2cap
                },
                Llid::DataStart => {
                    &&& after.rx@ == before.rx@.pop()
                    &&& L2CAPStateTx::<M>::settled(
                        before.l2cap@.start(head.body),
                        before.l2cap,
                        after.l2cap,
                        before.tx,
                        after.tx,
                        result,
                    )
                },
                Llid::DataCont => {
                    &&& after.rx@ == before.rx@.pop()
                    &&& L2CAPStateTx::<M>::settled(
                        before.l2cap@.cont(head.body),
                        before.l2cap,
                        after.l2cap,
                        before.tx,
                        after.tx,
                        result,
                    )
                },
            }
        }
    }

    /// Creates a new packet processor hooked up to data channel packet queues.
    pub fn new(tx: PacketQueue, rx: PacketQueue, l2cap: L2CAPState<M>) -> (r: Self)
        requires
            tx.wf(),
            rx.wf(),
            l2cap.wf(),
        ensures
            r.wf(),
            r.tx == tx,
            r.rx == rx,
            r.l2cap == l2cap,
    {
        Responder { tx, rx, l2cap }
    }

    /// Returns `true` when this responder has work to do: a record waits in
    /// the receive queue.
    pub fn has_work(&self) -> (r: bool)
        requires
            self.wf(),
        ensures
            r == self.rx@.has_data(),
    {
        self.rx.has_data()
    }

    /// Tells whether the head of the receive queue is a control message that
    /// the real-time part should have answered. `process_one` must not be
    /// called then.
    pub fn head_is_intercepted(&self) -> (r: bool)
        requires
            self.wf(),
        ensures
            r == head_intercepted(self.rx@),
    {
        match self.rx.peek() {
            Some(Pdu::Control { data }) => data.len() > 0 && is_handled_by_real_time(data[0]),
            _ => false,
        }
    }

    /// Processes a single incoming packet in the packet queue.
    ///
    /// Returns `Error::Eof` if there are no incoming packets in the receive
    /// queue, and changes nothing then.
    pub fn process_one(&mut self) -> (r: Result<(), Error>)
        requires
            old(self).wf(),
            !head_intercepted(old(self).rx@),
        ensures
            final(self).wf(),
            final(self).rx@.capacity == old(self).rx@.capacity,
            final(self).tx@.capacity == old(self).tx@.capacity,
            Self::processed(*old(self), *final(self), r),
    {
        let pdu = match self.rx.peek() {
            Some(pdu) => pdu,
            None => {
                return Err(Error::Eof);
            },
        };
        proof {
            self.rx.lemma_wf_valid();
            self.tx.lemma_wf_valid();
            self.rx@.lemma_apply_valid(QueueOp::Consume(true));
        }
        let outcome = match &pdu {
            Pdu::Control { data } => {
                if data.len() == 0 {
                    Consume::always(Err(Error::InvalidLength))
                } else {
                    let response = ControlPdu::UnknownRsp { unknown_type: data[0] };
                    let reply = response.to_bytes();
                    assert(reply@ =~= unknown_reply(data@[0]).body);
                    Consume::on_success(self.tx.produce(Llid::Control, reply.as_slice()))
                }
            },
            Pdu::DataStart { message } => {
                Consume::always(self.l2cap().process_start(message.as_slice()))
            },
            Pdu::DataCont { message } => {
                Consume::always(self.l2cap().process_cont(message.as_slice()))
            },
        };
        self.rx.conclude(outcome)
    }

    /// Obtains access to the L2CAP instance, bound to the transmit queue.
    pub fn l2cap(&mut self) -> (r: L2CAPStateTx<'_, M>)
        ensures
            *r.l2cap == old(self).l2cap,
            *r.tx == old(self).tx,
            final(self).l2cap == *final(r.l2cap),
            final(self).tx == *final(r.tx),
            final(self).rx == old(self).rx,
    {
        self.l2cap.tx(&mut self.tx)
    }

    /// Provides raw access to the Link Layer Control Protocol (LLCP): grants
    /// the start of a procedure on `conn`, and marks the connection, if none
    /// is outstanding there. Otherwise `InvalidState` is returned and nothing
    /// changes.
    pub fn llcp<'a>(&'a mut self, conn: &'a mut Connection) -> (r: Result<LLCPTx<'a>, Error>)
        ensures
            r is Ok == old(conn).initiate().result is Ok,
            match r {
                Ok(handle) => {
                    &&& *handle.link == old(conn).initiate().connection
                    &&& *handle.producer == old(self).tx
                    &&& *final(conn) == *final(handle.link)
                    &&& final(self).tx == *final(handle.producer)
                    &&& final(self).rx == old(self).rx
                    &&& final(self).l2cap == old(self).l2cap
                },
                Err(e) => {
                    &&& e == Error::InvalidState
                    &&& *final(conn) == *old(conn)
                    &&& *final(self) == *old(self)
                },
            },
    {
        if conn.llcp_initiated {
            Err(Error::InvalidState)
        } else {
            conn.llcp_initiated = true;
            Ok(LLCPTx { producer: &mut self.tx, link: conn, grant: Grant { seal: () } })
        }
    }
}

/// The permission to start one LLCP procedure on a connection.
pub struct LLCPTx<'a> {
    /// The transmit queue that takes the procedure's message.
    pub producer: &'a mut PacketQueue,
    /// The connection that the permission is for.
    pub link: &'a mut Connection,
    /// The responder's seal. Only `Responder::llcp` makes one, so that no
    /// permission exists that it did not grant.
    pub grant: Grant,
}

/// The mark of a permission that `Responder::llcp` granted.
pub struct Grant {
    seal: (),
}

impl<'a> LLCPTx<'a> {
    /// Returns a reference to the link layer connection state.
    pub fn connection(&self) -> (r: &Connection)
        ensures
            *r == *old(self.link),
    {
        &*self.link
    }

    /// Start a *Connection Parameters Request Procedure*, requesting a change
    /// in connection parameters. The request enters the transmit queue or is
    /// refused by it; either way the connection stays marked.
    pub fn request_conn_params(self, params: ConnectionParamRequest) -> (r: Result<(), Error>)
        requires
            old(self.producer).wf(),
        ensures
            final(self.producer).wf(),
            *final(self.link) == old(self.link).pending(),
            r == old(self.producer)@.produce_result(conn_param_request(params).body.len()),
            final(self.producer)@ == old(self.producer)@.apply(
                QueueOp::Produce(conn_param_request(params)),
            ),
    {
        self.link.llcp_initiated = true;
        let cpdu = ControlPdu::ConnectionParamReq(params);
        let bytes = cpdu.to_bytes();
        proof {
            params.lemma_encoding_bytes();
            assert(bytes@ =~= conn_param_request(params).body);
        }
        self.producer.produce(Llid::Control, bytes.as_slice())
    }
}

} // verus!
