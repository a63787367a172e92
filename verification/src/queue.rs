//! Bounded queue of framed data channel records.
//!
//! A queue moves records between the real-time part of the link layer and the
//! responder. Its storage is a byte buffer of fixed capacity; each record lies
//! in it as a tag byte, a length byte and the body.

use vstd::prelude::*;
use std::collections::VecDeque;
use crate::error::Error;

verus! {

/// Bytes that a record occupies besides its body.
pub const HEADER_SIZE: usize = 2;

/// Longest body that a record can carry.
pub const MAX_BODY_SIZE: usize = 255;

/// Kind of a data channel PDU, the tag of its record.
#[derive(Copy, Clone, Debug, PartialEq, Eq, Structural)]
pub enum Llid {
    /// Continuation of an L2CAP message.
    DataCont,
    /// Start of an L2CAP message.
    DataStart,
    /// LL Control PDU.
    Control,
}

impl Llid {
    /// The tag byte of this kind.
    pub open spec fn tag(self) -> u8 {
        match self {
            Llid::DataCont => 1,
            Llid::DataStart => 2,
            Llid::Control => 3,
        }
    }

    /// The kind that a tag byte stands for.
    pub open spec fn of_tag(tag: u8) -> Option<Llid> {
        if tag == 1 {
            Some(Llid::DataCont)
        } else if tag == 2 {
            Some(Llid::DataStart)
        } else if tag == 3 {
            Some(Llid::Control)
        } else {
            None
        }
    }

    /// The tag byte of this kind.
    pub fn to_tag(&self) -> (r: u8)
        ensures
            r == self.tag(),
            Llid::of_tag(r) == Some(*self),
    {
        match self {
            Llid::DataCont => 1,
            Llid::DataStart => 2,
            Llid::Control => 3,
        }
    }

    /// The kind that a tag byte stands for, if any.
    pub fn from_tag(tag: u8) -> (r: Option<Llid>)
        ensures
            r == Llid::of_tag(tag),
    {
        if tag == 1 {
            Some(Llid::DataCont)
        } else if tag == 2 {
            Some(Llid::DataStart)
        } else if tag == 3 {
            Some(Llid::Control)
        } else {
            None
        }
    }
}

/// A record as contracts see it: its kind and its body.
pub struct Record {
    pub tag: Llid,
    pub body: Seq<u8>,
}

/// A data channel PDU taken from a queue.
#[derive(Clone, Debug, PartialEq, Eq)]
pub enum Pdu {
    /// An encoded LL Control PDU.
    Control { data: Vec<u8> },
    /// The first fragment of an L2CAP message, which starts with its header.
    DataStart { message: Vec<u8> },
    /// A further fragment of an L2CAP message.
    DataCont { message: Vec<u8> },
}

impl Pdu {
    /// The kind of this PDU.
    pub open spec fn llid_value(&self) -> Llid {
        match self {
            Pdu::Control { .. } => Llid::Control,
            Pdu::DataStart { .. } => Llid::DataStart,
            Pdu::DataCont { .. } => Llid::DataCont,
        }
    }

    /// The bytes that this PDU carries.
    pub open spec fn body(&self) -> Seq<u8> {
        match self {
            Pdu::Control { data } => data@,
            Pdu::DataStart { message } => message@,
            Pdu::DataCont { message } => message@,
        }
    }

    /// The record that holds this PDU.
    pub open spec fn record(&self) -> Record {
        Record { tag: self.llid_value(), body: self.body() }
    }

    /// Makes the PDU of kind `llid` that carries `body`.
    pub fn new(llid: Llid, body: Vec<u8>) -> (r: Pdu)
        ensures
            r.llid_value() == llid,
            r.body() == body@,
    {
        match llid {
            Llid::Control => Pdu::Control { data: body },
            Llid::DataStart => Pdu::DataStart { message: body },
            Llid::DataCont => Pdu::DataCont { message: body },
        }
    }

    /// The kind of this PDU.
    pub fn llid(&self) -> (r: Llid)
        ensures
            r == self.llid_value(),
    {
        match self {
            Pdu::Control { .. } => Llid::Control,
            Pdu::DataStart { .. } => Llid::DataStart,
            Pdu::DataCont { .. } => Llid::DataCont,
        }
    }

    /// The bytes that this PDU carries.
    pub fn payload(&self) -> (r: &[u8])
        ensures
            r@ == self.body(),
    {
        match self {
            Pdu::Control { data } => data.as_slice(),
            Pdu::DataStart { message } => message.as_slice(),
            Pdu::DataCont { message } => message.as_slice(),
        }
    }
}

/// What becomes of the record that a consumer has looked at, and what the
/// consumer reports.
#[derive(Copy, Clone, Debug, PartialEq, Eq)]
pub struct Consume {
    /// Whether the record leaves the queue.
    pub consume: bool,
    /// What the caller is told.
    pub result: Result<(), Error>,
}

impl Consume {
    /// The record leaves the queue, whatever the result.
    pub fn always(result: Result<(), Error>) -> (r: Consume)
        ensures
            r == (Consume { consume: true, result }),
    {
        Consume { consume: true, result }
    }

    /// The record stays at the head of the queue.
    pub fn never(result: Result<(), Error>) -> (r: Consume)
        ensures
            r == (Consume { consume: false, result }),
    {
        Consume { consume: false, result }
    }

    /// The record leaves the queue exactly if `result` is a success.
    pub fn on_success(result: Result<(), Error>) -> (r: Consume)
        ensures
            r == (Consume { consume: result is Ok, result }),
    {
        let consume = result.is_ok();
        Consume { consume, result }
    }
}

/// The bytes that hold one record.
pub open spec fn frame(record: Record) -> Seq<u8> {
    seq![record.tag.tag(), record.body.len() as u8] + record.body
}

/// The bytes that hold a sequence of records, oldest first.
pub open spec fn frames(records: Seq<Record>) -> Seq<u8>
    decreases records.len(),
{
    if records.len() == 0 {
        Seq::empty()
    } else {
        frame(records[0]) + frames(records.drop_first())
    }
}

/// A new record is stored behind the ones that are there.
pub proof fn lemma_frames_push(records: Seq<Record>, record: Record)
    ensures
        frames(records.push(record)) == frames(records) + frame(record),
    decreases records.len(),
{
    let longer = records.push(record);
    if records.len() == 0 {
        assert(longer.drop_first() =~= Seq::<Record>::empty());
        assert(frames(longer) =~= frame(record) + frames(longer.drop_first()));
        assert(frames(longer) =~= frames(records) + frame(record));
    } else {
        assert(longer.drop_first() =~= records.drop_first().push(record));
        lemma_frames_push(records.drop_first(), record);
        assert(frames(longer) =~= frames(records) + frame(record));
    }
}

/// An operation on a queue, as the laws of the queue speak of it.
pub enum QueueOp {
    /// A producer offers a record.
    Produce(Record),
    /// A consumer looks at the head record and decides whether it leaves.
    Consume(bool),
}

/// A queue as contracts see it.
pub struct QueueModel {
    /// Number of bytes that the queue can hold.
    pub capacity: nat,
    /// The records that wait, oldest first.
    pub records: Seq<Record>,
}

impl QueueModel {
    /// The empty queue of the given capacity.
    pub open spec fn empty(capacity: nat) -> QueueModel {
        QueueModel { capacity, records: Seq::empty() }
    }

    /// Number of bytes that the waiting records occupy.
    pub open spec fn used(self) -> nat {
        frames(self.records).len()
    }

    /// Whether a record waits.
    pub open spec fn has_data(self) -> bool {
        self.records.len() > 0
    }

    /// Whether a body of `size` bytes is short enough for a record.
    pub open spec fn frameable(size: nat) -> bool {
        size <= MAX_BODY_SIZE
    }

    /// Whether the queue has room for a record with a body of `size` bytes.
    pub open spec fn has_room(self, size: nat) -> bool {
        self.used() + HEADER_SIZE + size <= self.capacity
    }

    /// Whether the queue takes a record with a body of `size` bytes.
    pub open spec fn accepts(self, size: nat) -> bool {
        Self::frameable(size) && self.has_room(size)
    }

    /// The queue with `record` behind the others.
    pub open spec fn push(self, record: Record) -> QueueModel {
        QueueModel { capacity: self.capacity, records: self.records.push(record) }
    }

    /// The queue without its head record.
    pub open spec fn pop(self) -> QueueModel
        recommends
            self.has_data(),
    {
        QueueModel { capacity: self.capacity, records: self.records.drop_first() }
    }

    /// What a producer is told when it offers a body of `size` bytes.
    pub open spec fn produce_result(self, size: nat) -> Result<(), Error> {
        if !Self::frameable(size) {
            Err(Error::InvalidLength)
        } else if !self.has_room(size) {
            Err(Error::QueueFull)
        } else {
            Ok(())
        }
    }

    /// The queue after one operation.
    pub open spec fn apply(self, op: QueueOp) -> QueueModel {
        match op {
            QueueOp::Produce(record) => if self.accepts(record.body.len()) {
                self.push(record)
            } else {
                self
            },
            QueueOp::Consume(commit) => if commit && self.has_data() {
                self.pop()
            } else {
                self
            },
        }
    }

    /// The queue after a sequence of operations.
    pub open spec fn replay(self, ops: Seq<QueueOp>) -> QueueModel
        decreases ops.len(),
    {
        if ops.len() == 0 {
            self
        } else {
            self.replay(ops.drop_last()).apply(ops.last())
        }
    }

    /// Number of records that the queue took during a sequence of operations.
    pub open spec fn produced(self, ops: Seq<QueueOp>) -> nat
        decreases ops.len(),
    {
        if ops.len() == 0 {
            0
        } else {
            let before = self.replay(ops.drop_last());
            let taken: nat = match ops.last() {
                QueueOp::Produce(record) => if before.accepts(record.body.len()) {
                    1
                } else {
                    0
                },
                QueueOp::Consume(_) => 0,
            };
            self.produced(ops.drop_last()) + taken
        }
    }

    /// Number of records that left the queue during a sequence of operations.
    pub open spec fn consumed(self, ops: Seq<QueueOp>) -> nat
        decreases ops.len(),
    {
        if ops.len() == 0 {
            0
        } else {
            let before = self.replay(ops.drop_last());
            let gone: nat = match ops.last() {
                QueueOp::Produce(_) => 0,
                QueueOp::Consume(commit) => if commit && before.has_data() {
                    1
                } else {
                    0
                },
            };
            self.consumed(ops.drop_last()) + gone
        }
    }

    /// Every record of the queue has a body that fits a frame.
    pub open spec fn framed(self) -> bool {
        forall|i: int| 0 <= i < self.records.len() ==> Self::frameable(#[trigger] self.records[i].body.len())
    }

    /// The queue is within its capacity and every record fits a frame.
    pub open spec fn valid(self) -> bool {
        self.framed() && self.used() <= self.capacity
    }

    /// A record occupies its header and its body.
    pub proof fn lemma_used_push(self, record: Record)
        ensures
            self.push(record).used() == self.used() + HEADER_SIZE + record.body.len(),
    {
        lemma_frames_push(self.records, record);
    }

    /// A queue with a record uses at least a header; an empty one uses nothing.
    pub proof fn lemma_used_has_data(self)
        ensures
            self.has_data() <==> self.used() > 0,
            self.has_data() ==> self.used() == HEADER_SIZE + self.records[0].body.len()
                + self.pop().used(),
    {
    }

    /// No operation takes a valid queue out of validity or changes its capacity.
    pub proof fn lemma_apply_valid(self, op: QueueOp)
        requires
            self.valid(),
        ensures
            self.apply(op).valid(),
            self.apply(op).capacity == self.capacity,
    {
        match op {
            QueueOp::Produce(record) => {
                self.lemma_used_push(record);
            },
            QueueOp::Consume(_) => {
                self.lemma_used_has_data();
                if self.has_data() {
                    let after = self.pop();
                    assert forall|i: int| 0 <= i < after.records.len() implies Self::frameable(
                        #[trigger] after.records[i].body.len(),
                    ) by {
                        assert(after.records[i] == self.records[i + 1]);
                    }
                }
            },
        }
    }

    /// Whatever is produced and consumed, in whatever order: the records that
    /// wait are those that the queue took and that have not left it, so the
    /// queue has data exactly while more were taken than have left.
    pub proof fn lemma_has_data_counts(self, ops: Seq<QueueOp>)
        ensures
            self.replay(ops).records.len() + self.consumed(ops) == self.records.len()
                + self.produced(ops),
            self.replay(ops).has_data() <==> self.records.len() + self.produced(ops)
                > self.consumed(ops),
            self.replay(ops).capacity == self.capacity,
        decreases ops.len(),
    {
        if ops.len() > 0 {
            self.lemma_has_data_counts(ops.drop_last());
        }
    }
}

/// A bounded first-in, first-out queue of records.
pub struct PacketQueue {
    buf: VecDeque<u8>,
    capacity: usize,
    records: Ghost<Seq<Record>>,
}

impl View for PacketQueue {
    type V = QueueModel;

    closed spec fn view(&self) -> QueueModel {
        QueueModel { capacity: self.capacity as nat, records: self.records@ }
    }
}

impl PacketQueue {
    /// The buffer holds the frames of the waiting records and nothing else,
    /// within the capacity.
    pub closed spec fn wf(&self) -> bool {
        &&& self.buf@ == frames(self.records@)
        &&& self@.valid()
    }

    /// A well-formed queue shows a valid model, whose capacity fits the machine.
    pub proof fn lemma_wf_valid(&self)
        requires
            self.wf(),
        ensures
            self@.valid(),
            self@.capacity <= usize::MAX,
    {
    }

    /// Makes an empty queue that holds up to `capacity` bytes.
    pub fn new(capacity: usize) -> (r: PacketQueue)
        ensures
            r.wf(),
            r@ == QueueModel::empty(capacity as nat),
    {
        PacketQueue { buf: VecDeque::new(), capacity, records: Ghost(Seq::empty()) }
    }

    /// Number of bytes that the queue can hold.
    pub fn capacity(&self) -> (r: usize)
        ensures
            r == self@.capacity,
    {
        self.capacity
    }

    /// Number of bytes that are free.
    pub fn free_space(&self) -> (r: usize)
        requires
            self.wf(),
        ensures
            r == self@.capacity - self@.used(),
    {
        self.capacity - self.buf.len()
    }

    /// Whether a record waits.
    pub fn has_data(&self) -> (r: bool)
        requires
            self.wf(),
        ensures
            r == self@.has_data(),
    {
        proof {
            self@.lemma_used_has_data();
        }
        self.buf.len() > 0
    }

    /// Whether the queue would take a record with a body of `size` bytes.
    pub fn can_accept(&self, size: usize) -> (r: bool)
        requires
            self.wf(),
        ensures
            r == self@.accepts(size as nat),
    {
        size <= MAX_BODY_SIZE && self.capacity - self.buf.len() >= HEADER_SIZE && self.capacity
            - self.buf.len() - HEADER_SIZE >= size
    }

    /// Offers a record of kind `tag` with the given body. The queue takes it
    /// whole or not at all: a body of more than 255 bytes is refused with
    /// `InvalidLength`, one for which the room is lacking with `QueueFull`.
    pub fn produce(&mut self, tag: Llid, body: &[u8]) -> (r: Result<(), Error>)
        requires
            old(self).wf(),
        ensures
            final(self).wf(),
            r == old(self)@.produce_result(body@.len()),
            final(self)@ == old(self)@.apply(QueueOp::Produce(Record { tag, body: body@ })),
    {
        if body.len() > MAX_BODY_SIZE {
            return Err(Error::InvalidLength);
        }
        if !self.can_accept(body.len()) {
            return Err(Error::QueueFull);
        }
        let ghost record = Record { tag, body: body@ };
        self.buf.push_back(tag.to_tag());
        self.buf.push_back(body.len() as u8);
        let mut i: usize = 0;
        while i < body.len()
            invariant
                i <= body@.len(),
                body@.len() <= MAX_BODY_SIZE,
                self.capacity == old(self).capacity,
                self.records == old(self).records,
                self.buf@ == old(self).buf@ + seq![tag.tag(), body@.len() as u8] + body@.subrange(
                    0,
                    i as int,
                ),
            decreases body@.len() - i,
        {
            self.buf.push_back(body[i]);
            i = i + 1;
            assert(self.buf@ =~= old(self).buf@ + seq![tag.tag(), body@.len() as u8]
                + body@.subrange(0, i as int));
        }
        proof {
            assert(body@.subrange(0, i as int) =~= body@);
            assert(self.buf@ =~= old(self).buf@ + frame(record));
            lemma_frames_push(old(self).records@, record);
            old(self)@.lemma_apply_valid(QueueOp::Produce(record));
            self.records@ = old(self).records@.push(record);
        }
        Ok(())
    }

    /// Copies the head record out of the queue, which keeps it.
    pub fn peek(&self) -> (r: Option<Pdu>)
        requires
            self.wf(),
        ensures
            r is Some == self@.has_data(),
            r is Some ==> r->0.record() == self@.records[0],
    {
        if self.buf.len() == 0 {
            proof {
                self@.lemma_used_has_data();
            }
            return None;
        }
        proof {
            self@.lemma_used_has_data();
        }
        let ghost head = self.records@[0];
        assert(Self::head_frame_at(self.buf@, head));
        let tag: u8 = self.buf[0];
        let len: usize = self.buf[1] as usize;
        let mut body: Vec<u8> = Vec::new();
        let mut i: usize = 0;
        while i < len
            invariant
                i <= len,
                len == head.body.len(),
                HEADER_SIZE + len <= self.buf@.len(),
                Self::head_frame_at(self.buf@, head),
                body@ == head.body.subrange(0, i as int),
            decreases len - i,
        {
            body.push(self.buf[HEADER_SIZE + i]);
            i = i + 1;
            assert(body@ =~= head.body.subrange(0, i as int));
        }
        assert(head.body.subrange(0, i as int) =~= head.body);
        match Llid::from_tag(tag) {
            Some(llid) => Some(Pdu::new(llid, body)),
            None => None,
        }
    }

    /// The frame of `head` lies at the front of `bytes`.
    pub open spec fn head_frame_at(bytes: Seq<u8>, head: Record) -> bool {
        &&& bytes.len() >= HEADER_SIZE + head.body.len()
        &&& head.body.len() <= MAX_BODY_SIZE
        &&& bytes[0] == head.tag.tag()
        &&& bytes[1] == head.body.len()
        &&& forall|i: int| 0 <= i < head.body.len() ==> bytes[HEADER_SIZE + i] == head.body[i]
    }

    /// Settles what a consumer decided about the head record: the record
    /// leaves the queue if `outcome` says so, and stays otherwise. Hands back
    /// the consumer's result.
    pub fn conclude(&mut self, outcome: Consume) -> (r: Result<(), Error>)
        requires
            old(self).wf(),
        ensures
            final(self).wf(),
            r == outcome.result,
            final(self)@ == old(self)@.apply(QueueOp::Consume(outcome.consume)),
    {
        if outcome.consume && self.buf.len() > 0 {
            proof {
                self@.lemma_used_has_data();
            }
            let ghost head = self.records@[0];
            assert(Self::head_frame_at(self.buf@, head));
            let len: usize = self.buf[1] as usize;
            let total: usize = HEADER_SIZE + len;
            let mut i: usize = 0;
            while i < total
                invariant
                    i <= total,
                    total <= old(self).buf@.len(),
                    self.capacity == old(self).capacity,
                    self.records == old(self).records,
                    self.buf@ == old(self).buf@.subrange(i as int, old(self).buf@.len() as int),
                decreases total - i,
            {
                let _ = self.buf.pop_front();
                i = i + 1;
                assert(self.buf@ =~= old(self).buf@.subrange(
                    i as int,
                    old(self).buf@.len() as int,
                ));
            }
            proof {
                assert(frame(head).len() == total);
                assert(self.buf@ =~= frames(old(self).records@.drop_first()));
                old(self)@.lemma_apply_valid(QueueOp::Consume(true));
                self.records@ = old(self).records@.drop_first();
            }
        } else {
            proof {
                self@.lemma_used_has_data();
            }
        }
        outcome.result
    }
}

} // verus!
