//! Reassembly of L2CAP messages from data channel fragments.
//!
//! A message starts with a four-byte header: the length of its payload and the
//! channel it is meant for, both little-endian. The first fragment holds the
//! header; further fragments hold payload only. A payload is handed to the
//! channel mapper once all of it has arrived, and never before.

use vstd::prelude::*;
use vstd::slice::{slice_subrange, slice_to_vec};
use crate::bytes::{append_bytes, le16_at, read_u16};
use crate::error::Error;
use crate::queue::PacketQueue;

verus! {

/// Number of bytes in the header of an L2CAP message.
pub const L2CAP_HEADER_SIZE: usize = 4;

/// A complete payload and the channel it was sent to, as contracts see it.
pub struct Sdu {
    pub channel: u16,
    pub payload: Seq<u8>,
}

/// Routes complete payloads to the protocols above L2CAP.
pub trait ChannelMapper {
    /// Every payload that was handed to the mapper, oldest first.
    spec fn routed(&self) -> Seq<Sdu>;

    /// Takes the complete `payload` sent to `channel`. The mapper may answer
    /// by producing records into `tx`; it never removes or changes one.
    fn route(&mut self, channel: u16, payload: &[u8], tx: &mut PacketQueue) -> (r: Result<
        (),
        Error,
    >)
        requires
            old(tx).wf(),
        ensures
            final(self).routed() == old(self).routed().push(Sdu { channel, payload: payload@ }),
            final(tx).wf(),
            final(tx)@.capacity == old(tx)@.capacity,
            old(tx)@.records.is_prefix_of(final(tx)@.records),
    ;
}

/// The state of a reassembly, as contracts see it.
pub enum Reassembly {
    /// No message is under way.
    Idle,
    /// A message to `channel` with a payload of `total` bytes is under way,
    /// of which `data` has arrived.
    Collecting { channel: u16, total: nat, data: Seq<u8> },
}

/// What a fragment does to a reassembly.
pub struct Outcome {
    /// The state after the fragment.
    pub state: Reassembly,
    /// The payload that the fragment completed.
    pub forwarded: Option<Sdu>,
    /// The protocol error that the fragment is.
    pub failure: Option<Error>,
}

/// The payload length that the header of a start fragment declares.
pub open spec fn declared_length(message: Seq<u8>) -> nat
    recommends
        message.len() >= L2CAP_HEADER_SIZE,
{
    le16_at(message, 0) as nat
}

/// The channel that the header of a start fragment names.
pub open spec fn declared_channel(message: Seq<u8>) -> u16
    recommends
        message.len() >= L2CAP_HEADER_SIZE,
{
    le16_at(message, 2)
}

/// The payload bytes that a start fragment carries behind its header.
pub open spec fn start_data(message: Seq<u8>) -> Seq<u8>
    recommends
        message.len() >= L2CAP_HEADER_SIZE,
{
    message.subrange(L2CAP_HEADER_SIZE as int, message.len() as int)
}

/// The fragments of a message, one after the other.
pub open spec fn concat(fragments: Seq<Seq<u8>>) -> Seq<u8>
    decreases fragments.len(),
{
    if fragments.len() == 0 {
        Seq::empty()
    } else {
        concat(fragments.drop_last()) + fragments.last()
    }
}

impl Reassembly {
    /// A reassembly under way still lacks a part of its payload.
    pub open spec fn valid(self) -> bool {
        match self {
            Reassembly::Idle => true,
            Reassembly::Collecting { total, data, .. } => data.len() < total <= u16::MAX,
        }
    }

    /// What a start fragment does. One that is too short for a header is an
    /// error and changes nothing. Any other begins a new message, dropping
    /// what was under way: if the fragment holds the whole payload, that is
    /// forwarded at once; if not, its data is kept.
    pub open spec fn start(self, message: Seq<u8>) -> Outcome {
        if message.len() < L2CAP_HEADER_SIZE {
            Outcome { state: self, forwarded: None, failure: Some(Error::InvalidLength) }
        } else if start_data(message).len() >= declared_length(message) {
            Outcome {
                state: Reassembly::Idle,
                forwarded: Some(
                    Sdu { channel: declared_channel(message), payload: start_data(message) },
                ),
                failure: None,
            }
        } else {
            Outcome {
                state: Reassembly::Collecting {
                    channel: declared_channel(message),
                    total: declared_length(message),
                    data: start_data(message),
                },
                forwarded: None,
                failure: None,
            }
        }
    }

    /// What a continuation fragment does. With no message under way it is an
    /// error. Otherwise its bytes follow those that have arrived; once the
    /// declared length is reached, the payload is forwarded to the channel
    /// that the start fragment named.
    pub open spec fn cont(self, message: Seq<u8>) -> Outcome {
        match self {
            Reassembly::Idle => Outcome {
                state: self,
                forwarded: None,
                failure: Some(Error::UnexpectedContinuation),
            },
            Reassembly::Collecting { channel, total, data } => if data.len() + message.len()
                >= total {
                Outcome {
                    state: Reassembly::Idle,
                    forwarded: Some(Sdu { channel, payload: data + message }),
                    failure: None,
                }
            } else {
                Outcome {
                    state: Reassembly::Collecting { channel, total, data: data + message },
                    forwarded: None,
                    failure: None,
                }
            },
        }
    }

    /// The state after a run of continuation fragments.
    pub open spec fn after(self, fragments: Seq<Seq<u8>>) -> Reassembly
        decreases fragments.len(),
    {
        if fragments.len() == 0 {
            self
        } else {
            self.after(fragments.drop_last()).cont(fragments.last()).state
        }
    }

    /// The payloads forwarded during a run of continuation fragments.
    pub open spec fn forwards(self, fragments: Seq<Seq<u8>>) -> Seq<Sdu>
        decreases fragments.len(),
    {
        if fragments.len() == 0 {
            Seq::empty()
        } else {
            let earlier = self.forwards(fragments.drop_last());
            match self.after(fragments.drop_last()).cont(fragments.last()).forwarded {
                Some(sdu) => earlier.push(sdu),
                None => earlier,
            }
        }
    }

    /// No fragment takes a valid state out of validity.
    pub proof fn lemma_steps_valid(self, message: Seq<u8>)
        requires
            self.valid(),
        ensures
            self.start(message).state.valid(),
            self.cont(message).state.valid(),
    {
    }

    /// A start fragment that holds the whole payload is forwarded at once and
    /// whole, and leaves no reassembly under way.
    pub proof fn lemma_complete_start(self, message: Seq<u8>)
        requires
            message.len() >= L2CAP_HEADER_SIZE,
            start_data(message).len() >= declared_length(message),
        ensures
            self.start(message).forwarded == Some(
                Sdu { channel: declared_channel(message), payload: start_data(message) },
            ),
            self.start(message).state == Reassembly::Idle,
            self.start(message).failure is None,
    {
    }

    /// A continuation fragment with no message under way is a protocol error:
    /// nothing is forwarded and nothing changes.
    pub proof fn lemma_stray_continuation(message: Seq<u8>)
        ensures
            Reassembly::Idle.cont(message).failure == Some(Error::UnexpectedContinuation),
            Reassembly::Idle.cont(message).forwarded is None,
            Reassembly::Idle.cont(message).state == Reassembly::Idle,
    {
    }

    /// While the fragments that have arrived fall short of the declared
    /// length, nothing is forwarded and all of them are kept, in order.
    pub proof fn lemma_incomplete_keeps(self, fragments: Seq<Seq<u8>>)
        requires
            self matches Reassembly::Collecting { total, data, .. } && data.len() + concat(
                fragments,
            ).len() < total,
        ensures
            self.forwards(fragments) == Seq::<Sdu>::empty(),
            self matches Reassembly::Collecting { channel, total, data } && self.after(fragments)
                == (Reassembly::Collecting { channel, total, data: data + concat(fragments) }),
        decreases fragments.len(),
    {
        if fragments.len() == 0 {
            assert(self->data + concat(fragments) =~= self->data);
        } else {
            self.lemma_incomplete_keeps(fragments.drop_last());
            assert(self->data + concat(fragments) =~= (self->data + concat(fragments.drop_last()))
                + fragments.last());
        }
    }

    /// A message split over a start fragment and continuation fragments is
    /// forwarded by the fragment that reaches the declared length, not
    /// earlier, and once; the payload is the data of all fragments in the
    /// order of their arrival, and goes to the channel that the start
    /// fragment named.
    pub proof fn lemma_split_message(self, message: Seq<u8>, fragments: Seq<Seq<u8>>)
        requires
            message.len() >= L2CAP_HEADER_SIZE,
            fragments.len() >= 1,
            start_data(message).len() + concat(fragments.drop_last()).len() < declared_length(
                message,
            ),
            start_data(message).len() + concat(fragments).len() >= declared_length(message),
        ensures
            self.start(message).forwarded is None,
            self.start(message).failure is None,
            self.start(message).state.forwards(fragments.drop_last()) == Seq::<Sdu>::empty(),
            self.start(message).state.forwards(fragments) == seq![
                Sdu {
                    channel: declared_channel(message),
                    payload: start_data(message) + concat(fragments),
                },
            ],
            self.start(message).state.after(fragments) == Reassembly::Idle,
    {
        let begun = self.start(message).state;
        begun.lemma_incomplete_keeps(fragments.drop_last());
        assert(start_data(message) + concat(fragments) =~= (start_data(message) + concat(
            fragments.drop_last(),
        )) + fragments.last());
    }
}

/// The reassembly state of one connection, with the mapper that takes its
/// payloads.
pub struct L2CAPState<M: ChannelMapper> {
    mapper: M,
    active: bool,
    channel: u16,
    total: u16,
    buffer: Vec<u8>,
}

impl<M: ChannelMapper> View for L2CAPState<M> {
    type V = Reassembly;

    closed spec fn view(&self) -> Reassembly {
        if self.active {
            Reassembly::Collecting {
                channel: self.channel,
                total: self.total as nat,
                data: self.buffer@,
            }
        } else {
            Reassembly::Idle
        }
    }
}

impl<M: ChannelMapper> L2CAPState<M> {
    /// A reassembly under way still lacks a part of its payload.
    pub open spec fn wf(&self) -> bool {
        self@.valid()
    }

    /// The mapper that takes the payloads.
    pub closed spec fn mapper_value(&self) -> M {
        self.mapper
    }

    /// Every payload that was forwarded, oldest first.
    pub open spec fn routed(&self) -> Seq<Sdu> {
        self.mapper_value().routed()
    }

    /// Makes an idle state that forwards to `mapper`.
    pub fn new(mapper: M) -> (r: L2CAPState<M>)
        ensures
            r.wf(),
            r@ == Reassembly::Idle,
            r.mapper_value() == mapper,
    {
        L2CAPState { mapper, active: false, channel: 0, total: 0, buffer: Vec::new() }
    }

    /// The mapper that takes the payloads.
    pub fn mapper(&self) -> (r: &M)
        ensures
            *r == self.mapper_value(),
    {
        &self.mapper
    }

    /// Whether a message is under way.
    pub fn is_collecting(&self) -> (r: bool)
        ensures
            r == (self@ is Collecting),
    {
        self.active
    }

    /// Binds the state to the queue that takes the answers of the protocols
    /// above, for the processing of fragments.
    pub fn tx<'a>(&'a mut self, tx: &'a mut PacketQueue) -> (r: L2CAPStateTx<'a, M>)
        ensures
            *r.l2cap == *old(self),
            *r.tx == *old(tx),
            *final(self) == *final(r.l2cap),
            *final(tx) == *final(r.tx),
    {
        L2CAPStateTx { l2cap: self, tx }
    }
}

/// A reassembly state bound to the transmit queue for the time of one call.
pub struct L2CAPStateTx<'a, M: ChannelMapper> {
    pub l2cap: &'a mut L2CAPState<M>,
    pub tx: &'a mut PacketQueue,
}

impl<'a, M: ChannelMapper> L2CAPStateTx<'a, M> {
    /// What a fragment with the given outcome leaves behind: the state that
    /// the outcome names; the payload that it forwards, if any, added to what
    /// the mapper has taken; the transmit queue untouched unless a payload was
    /// forwarded, and then with the records the mapper produced behind the
    /// ones that were there. The result is the outcome's error if it has one,
    /// success if nothing was forwarded, and the mapper's result otherwise.
    pub open spec fn settled(
        outcome: Outcome,
        before: L2CAPState<M>,
        after: L2CAPState<M>,
        tx_before: PacketQueue,
        tx_after: PacketQueue,
        result: Result<(), Error>,
    ) -> bool {
        &&& after@ == outcome.state
        &&& after.wf()
        &&& tx_after.wf()
        &&& tx_after@.capacity == tx_before@.capacity
        &&& tx_before@.records.is_prefix_of(tx_after@.records)
        &&& match outcome.forwarded {
            Some(sdu) => after.routed() == before.routed().push(sdu),
            None => after.mapper_value() == before.mapper_value() && tx_after@ == tx_before@ && (
            match outcome.failure {
                Some(e) => result == Err::<(), Error>(e),
                None => result is Ok,
            }),
        }
    }

    /// Processes the first fragment of a message.
    pub fn process_start(self, message: &[u8]) -> (r: Result<(), Error>)
        requires
            old(self.l2cap).wf(),
            old(self.tx).wf(),
        ensures
            Self::settled(
                old(self.l2cap)@.start(message@),
                *old(self.l2cap),
                *final(self.l2cap),
                *old(self.tx),
                *final(self.tx),
                r,
            ),
    {
        if message.len() < L2CAP_HEADER_SIZE {
            return Err(Error::InvalidLength);
        }
        let length: u16 = read_u16(message, 0);
        let channel: u16 = read_u16(message, 2);
        let data = slice_subrange(message, L2CAP_HEADER_SIZE, message.len());
        self.l2cap.buffer.clear();
        if data.len() >= length as usize {
            self.l2cap.active = false;
            self.l2cap.mapper.route(channel, data, self.tx)
        } else {
            append_bytes(&mut self.l2cap.buffer, data);
            self.l2cap.active = true;
            self.l2cap.channel = channel;
            self.l2cap.total = length;
            assert(self.l2cap.buffer@ =~= start_data(message@));
            Ok(())
        }
    }

    /// Processes a further fragment of a message.
    pub fn process_cont(self, message: &[u8]) -> (r: Result<(), Error>)
        requires
            old(self.l2cap).wf(),
            old(self.tx).wf(),
        ensures
            Self::settled(
                old(self.l2cap)@.cont(message@),
                *old(self.l2cap),
                *final(self.l2cap),
                *old(self.tx),
                *final(self.tx),
                r,
            ),
    {
        if !self.l2cap.active {
            return Err(Error::UnexpectedContinuation);
        }
        append_bytes(&mut self.l2cap.buffer, message);
        if self.l2cap.buffer.len() >= self.l2cap.total as usize {
            self.l2cap.active = false;
            let r = self.l2cap.mapper.route(
                self.l2cap.channel,
                self.l2cap.buffer.as_slice(),
                self.tx,
            );
            self.l2cap.buffer.clear();
            r
        } else {
            Ok(())
        }
    }
}

/// A payload that an `Inbox` holds, with the channel it was sent to.
#[derive(Clone, Debug, PartialEq, Eq)]
pub struct Message {
    pub channel: u16,
    pub payload: Vec<u8>,
}

impl View for Message {
    type V = Sdu;

    open spec fn view(&self) -> Sdu {
        Sdu { channel: self.channel, payload: self.payload@ }
    }
}

/// A channel mapper that keeps every payload, in the order of arrival, for
/// the application to read. It answers nothing.
pub struct Inbox {
    messages: Vec<Message>,
}

impl Inbox {
    /// The payloads that the inbox holds, oldest first.
    pub closed spec fn contents(&self) -> Seq<Sdu> {
        Seq::new(self.messages@.len(), |i: int| self.messages@[i]@)
    }

    /// Makes an empty inbox.
    pub fn new() -> (r: Inbox)
        ensures
            r.contents() == Seq::<Sdu>::empty(),
    {
        let r = Inbox { messages: Vec::new() };
        assert(r.contents() =~= Seq::<Sdu>::empty());
        r
    }

    /// Number of payloads that the inbox holds.
    pub fn len(&self) -> (r: usize)
        ensures
            r == self.contents().len(),
    {
        self.messages.len()
    }

    /// The payload at position `index`, counted from the oldest, if there is one.
    pub fn get(&self, index: usize) -> (r: Option<&Message>)
        ensures
            r is Some == (index < self.contents().len()),
            r is Some ==> r->0@ == self.contents()[index as int],
    {
        if index < self.messages.len() {
            Some(&self.messages[index])
        } else {
            None
        }
    }
}

impl ChannelMapper for Inbox {
    open spec fn routed(&self) -> Seq<Sdu> {
        self.contents()
    }

    fn route(&mut self, channel: u16, payload: &[u8], tx: &mut PacketQueue) -> (r: Result<
        (),
        Error,
    >)
        ensures
            r is Ok,
            *final(tx) == *old(tx),
    {
        let message = Message { channel, payload: slice_to_vec(payload) };
        self.messages.push(message);
        assert(self.contents() =~= old(self).contents().push(
            Sdu { channel, payload: payload@ },
        ));
        Ok(())
    }
}

} // verus!
