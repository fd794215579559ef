//! Frames on the wire: the start delimiter, the length of the payload in two
//! bytes, the payload, and a checksum that brings the sum of payload and
//! checksum to `0xFF`.
//!
//! The transport gives and takes one byte at a time and may answer that it
//! is not ready. A `FrameSender` and a `FrameReceiver` ask it once per step
//! and say what to do next; the caller repeats the step for as long as it
//! is told to, since how long a transport stays unready has no bound.

use crate::frame::{
    parse_payload, Inbound, InboundView, Outbound, OutboundIterator, RX_PACKET, TRANSMIT_STATUS,
    TX_REQUEST,
};
use vstd::prelude::*;

verus! {

/// The byte that opens every frame.
pub const START: u8 = 0x7E;

/// The number of bytes that the staging buffer of a frame holds.
pub const CAPACITY: usize = 256;

/// The bytes of a frame around its payload: delimiter, length and checksum.
pub const OVERHEAD: usize = 4;

/// The sum of `bytes`.
pub open spec fn byte_sum(bytes: Seq<u8>) -> int
    decreases bytes.len(),
{
    if bytes.len() == 0 {
        0
    } else {
        byte_sum(bytes.drop_last()) + bytes.last()
    }
}

/// The checksum of a payload: what is missing from the sum of its bytes,
/// taken modulo 256, to `0xFF`.
pub open spec fn checksum_of(payload: Seq<u8>) -> u8 {
    (0xFF - byte_sum(payload) % 256) as u8
}

/// The frame that declares `len` bytes of payload and carries `body`: the
/// delimiter, `len` modulo 65536 in two bytes with the high one first, `body`,
/// and the checksum of `body`.
pub open spec fn frame_bytes(len: nat, body: Seq<u8>) -> Seq<u8> {
    seq![START, (len / 256 % 256) as u8, (len % 256) as u8] + body + seq![checksum_of(body)]
}

/// The frame of a payload, as it goes over the wire.
pub open spec fn wire_bytes(payload: Seq<u8>) -> Seq<u8> {
    frame_bytes(payload.len(), payload)
}

/// Appending a byte adds it to the sum.
pub proof fn lemma_byte_sum_push(bytes: Seq<u8>, b: u8)
    ensures
        byte_sum(bytes.push(b)) == byte_sum(bytes) + b,
{
    assert(bytes.push(b).drop_last() =~= bytes);
}

/// The sum is the first byte and the sum of the rest.
pub proof fn lemma_byte_sum_first(bytes: Seq<u8>)
    requires
        bytes.len() > 0,
    ensures
        byte_sum(bytes) == bytes[0] + byte_sum(bytes.drop_first()),
    decreases bytes.len(),
{
    if bytes.len() == 1 {
        assert(bytes.drop_last() =~= Seq::<u8>::empty());
        assert(bytes.drop_first() =~= Seq::<u8>::empty());
    } else {
        lemma_byte_sum_first(bytes.drop_last());
        assert(bytes.drop_last().drop_first() =~= bytes.drop_first().drop_last());
    }
}

/// The sum of a payload and its checksum is `0xFF` modulo 256.
pub proof fn lemma_checksum_completes(payload: Seq<u8>)
    ensures
        (byte_sum(payload) + checksum_of(payload)) % 256 == 0xFF,
        byte_sum(payload.push(checksum_of(payload))) % 256 == 0xFF,
{
    lemma_byte_sum_push(payload, checksum_of(payload));
}

/// `heapless::Vec`, the vector of fixed capacity that serves as staging
/// buffer. Its inside is not visible here.
#[verifier::external_type_specification]
#[verifier::external_body]
#[verifier::reject_recursive_types(T)]
pub struct ExStagingVec<T, const N: usize>(heapless::Vec<T, N>);

/// `nb::Error`, the outcome of an operation that did not complete. Its
/// inside is not visible here.
#[verifier::external_type_specification]
#[verifier::external_body]
#[verifier::reject_recursive_types(E)]
pub struct ExNbError<E>(nb::Error<E>);

/// The bytes that a staging buffer holds, in the order in which they were
/// pushed. What the three functions below say of it is taken from the source
/// of `heapless` and is not proved.
pub uninterp spec fn staged(buffer: heapless::Vec<u8, 256>) -> Seq<u8>;

/// Calls `heapless::Vec::new`. Taken on trust: the new buffer holds nothing.
#[verifier::external_body]
fn staging_new() -> (buffer: heapless::Vec<u8, 256>)
    ensures
        staged(buffer).len() == 0,
{
    heapless::Vec::new()
}

/// Calls `heapless::Vec::push`. Taken on trust: below the capacity the byte
/// is appended and the call succeeds; at the capacity the buffer stays as it
/// is and the byte comes back as the error; the call does not panic.
#[verifier::external_body]
fn staging_push(buffer: &mut heapless::Vec<u8, 256>, byte: u8) -> (r: Result<(), u8>)
    ensures
        r is Ok <==> staged(*old(buffer)).len() < CAPACITY,
        r is Ok ==> staged(*final(buffer)) == staged(*old(buffer)).push(byte),
        r is Err ==> r->Err_0 == byte && staged(*final(buffer)) == staged(*old(buffer)),
    no_unwind
{
    buffer.push(byte)
}

/// Calls `heapless::Vec::as_slice`. Taken on trust: the slice holds the
/// bytes of the buffer, in their order.
#[verifier::external_body]
fn staging_slice<'a>(buffer: &'a heapless::Vec<u8, 256>) -> (bytes: &'a [u8])
    ensures
        bytes@ == staged(*buffer),
{
    buffer.as_slice()
}

/// Why a command could not be sent.
#[derive(Debug)]
pub enum SerializationError<E> {
    /// The frame does not fit the staging buffer.
    WouldOverflow,
    /// The transport failed.
    Other(E),
}

impl<E> From<u8> for SerializationError<E> {
    /// The byte that the staging buffer gave back stands for an overflow.
    fn from(_e: u8) -> (r: SerializationError<E>) {
        SerializationError::WouldOverflow
    }
}

impl<E> vstd::std_specs::convert::FromSpecImpl<u8> for SerializationError<E> {
    open spec fn obeys_from_spec() -> bool {
        true
    }

    open spec fn from_spec(_e: u8) -> SerializationError<E> {
        SerializationError::WouldOverflow
    }
}

/// Where a serializer stands in its frame.
enum SerializationState {
    Start,
    LenH,
    LenL,
    Data,
    Done,
}

/// The frame of a payload, one byte at a time.
pub struct FrameSerializer<'a> {
    state: SerializationState,
    data: OutboundIterator<'a>,
    checksum: u8,
}

impl<'a> FrameSerializer<'a> {
    /// The bytes of the frame that are still to come.
    pub closed spec fn remaining(self) -> Seq<u8> {
        let rest = self.data.remaining();
        let total = self.data.total();
        let tail = rest + seq![(0xFF - (self.checksum + byte_sum(rest)) % 256) as u8];
        match self.state {
            SerializationState::Start => seq![
                START,
                (total / 256 % 256) as u8,
                (total % 256) as u8,
            ] + tail,
            SerializationState::LenH => seq![(total / 256 % 256) as u8, (total % 256) as u8]
                + tail,
            SerializationState::LenL => seq![(total % 256) as u8] + tail,
            SerializationState::Data => tail,
            SerializationState::Done => Seq::<u8>::empty(),
        }
    }

    /// A serializer at the start of the frame that declares the whole length
    /// of `data` and carries the bytes that `data` still holds.
    pub fn new(data: OutboundIterator<'a>) -> (fs: FrameSerializer<'a>)
        ensures
            fs.remaining() == frame_bytes(data.total(), data.remaining()),
    {
        let fs = FrameSerializer { state: SerializationState::Start, data, checksum: 0 };
        assert(fs.remaining() =~= frame_bytes(data.total(), data.remaining()));
        fs
    }

    /// The next byte of the frame, if one is left.
    pub fn next(&mut self) -> (r: Option<u8>)
        ensures
            match r {
                Some(b) => old(self).remaining().len() > 0 && b == old(self).remaining()[0]
                    && final(self).remaining() == old(self).remaining().drop_first(),
                None => old(self).remaining().len() == 0 && final(self).remaining() == old(
                    self,
                ).remaining(),
            },
    {
        match self.state {
            SerializationState::Start => {
                self.state = SerializationState::LenH;
                assert(final(self).remaining() =~= old(self).remaining().drop_first());
                Some(START)
            },
            SerializationState::LenH => {
                self.state = SerializationState::LenL;
                let n = self.data.len();
                assert((n >> 8) as u8 == n / 256 % 256) by (bit_vector);
                assert(final(self).remaining() =~= old(self).remaining().drop_first());
                Some((n >> 8) as u8)
            },
            SerializationState::LenL => {
                self.state = SerializationState::Data;
                let n = self.data.len();
                assert(n as u8 == n % 256) by (bit_vector);
                assert(final(self).remaining() =~= old(self).remaining().drop_first());
                Some(n as u8)
            },
            SerializationState::Data => {
                let ghost rest = self.data.remaining();
                if let Some(val) = self.data.next() {
                    proof {
                        lemma_byte_sum_first(rest);
                    }
                    self.checksum = self.checksum.wrapping_add(val);
                    assert(final(self).remaining() =~= old(self).remaining().drop_first());
                    Some(val)
                } else {
                    self.state = SerializationState::Done;
                    assert(rest =~= Seq::<u8>::empty());
                    assert(final(self).remaining() =~= old(self).remaining().drop_first());
                    Some(0xff - self.checksum)
                }
            },
            SerializationState::Done => None,
        }
    }
}

/// Moves the bytes that `fs` still holds to the end of `buffer`.
fn fill(buffer: &mut heapless::Vec<u8, 256>, fs: &mut FrameSerializer)
    requires
        staged(*old(buffer)).len() + old(fs).remaining().len() <= CAPACITY,
    ensures
        staged(*final(buffer)) == staged(*old(buffer)) + old(fs).remaining(),
        final(fs).remaining().len() == 0,
{
    let ghost whole = staged(*buffer) + fs.remaining();
    loop
        invariant
            whole.len() <= CAPACITY,
            whole == staged(*old(buffer)) + old(fs).remaining(),
            staged(*buffer) + fs.remaining() == whole,
        decreases fs.remaining().len(),
    {
        let ghost before = fs.remaining();
        match fs.next() {
            Some(b) => {
                let pushed = staging_push(buffer, b);
                assert(pushed is Ok);
                assert(staged(*buffer) + fs.remaining() =~= whole) by {
                    assert(before =~= seq![b] + before.drop_first());
                }
            },
            None => {
                assert(staged(*buffer) =~= whole);
                return ;
            },
        }
    }
}

/// The frame of `frame` in a staging buffer, if it fits: the frame takes
/// four bytes more than the payload, which takes fourteen more than the
/// data.
pub fn stage(frame: &mut Outbound) -> (r: Option<heapless::Vec<u8, 256>>)
    ensures
        *final(frame) == *old(frame),
        match r {
            Some(buffer) => {
                &&& old(frame).data_len() + 14 + OVERHEAD <= CAPACITY
                &&& staged(buffer) == wire_bytes(old(frame).payload())
                &&& staged(buffer).len() == 14 + old(frame).data_len() + OVERHEAD
                &&& byte_sum(staged(buffer).skip(3)) % 256 == 0xFF
            },
            None => old(frame).data_len() + 14 + OVERHEAD > CAPACITY,
        },
{
    let data_len = match frame {
        Outbound::TxRequest { data, .. } => data.len(),
    };
    if data_len > CAPACITY - OVERHEAD - 14 {
        return None;
    }
    proof {
        lemma_wire_len(*frame);
        lemma_wire_checksum(frame.payload());
    }
    let mut buffer = staging_new();
    let mut fs = FrameSerializer::new(frame.to_iter());
    fill(&mut buffer, &mut fs);
    Some(buffer)
}

/// What a source or sink answers when it is asked once.
#[derive(Debug, PartialEq)]
pub enum Polled<T, E> {
    /// It did what was asked.
    Ready(T),
    /// It is not ready yet.
    NotReady,
    /// The transport failed.
    Failed(E),
}

/// What to do after an answer.
#[derive(Debug, PartialEq)]
pub enum Step<T, E> {
    /// The work is done.
    Done(T),
    /// Ask again.
    Again,
    /// Give up.
    Stop(E),
}

/// Reads an answer of `nb`: `Ok` is ready, `nb::Error::WouldBlock` is not
/// ready, `nb::Error::Other` is the failure of the transport, with its
/// error. Taken on trust: a ready answer comes out as ready, with its
/// value, and no other answer does.
#[verifier::external_body]
fn polled<T, E>(answer: Result<T, nb::Error<E>>) -> (p: Polled<T, E>)
    ensures
        answer is Ok <==> p is Ready,
        answer is Ok ==> p->Ready_0 == answer->Ok_0,
{
    match answer {
        Ok(value) => Polled::Ready(value),
        Err(nb::Error::WouldBlock) => Polled::NotReady,
        Err(nb::Error::Other(e)) => Polled::Failed(e),
    }
}

/// The step that follows an answer: a ready answer ends the waiting with
/// its value, one that is not ready asks for another try, and a failure ends
/// the waiting with its error.
pub fn after_poll<T, E>(answer: Polled<T, E>) -> (step: Step<T, E>)
    ensures
        match answer {
            Polled::Ready(value) => step == Step::<T, E>::Done(value),
            Polled::NotReady => step is Again,
            Polled::Failed(e) => step == Step::<T, E>::Stop(e),
        },
{
    match answer {
        Polled::Ready(value) => Step::Done(value),
        Polled::NotReady => Step::Again,
        Polled::Failed(e) => Step::Stop(e),
    }
}

/// What one answer of the sink does to the sending of `wire`, of which
/// `sent` bytes are out: a ready answer counts one more byte as sent, and
/// the sending is done when that was the last; an answer that is not ready
/// changes nothing and asks for the same byte again; a failure ends the
/// sending with the error of the transport. When every byte is out, the
/// sending is done whatever the answer.
pub open spec fn sink_answered<E>(
    wire: Seq<u8>,
    sent: nat,
    answer: Polled<(), E>,
    step: Step<(), SerializationError<E>>,
    after: nat,
) -> bool {
    if sent >= wire.len() {
        step is Done && after == sent
    } else {
        match answer {
            Polled::Ready(_) => after == sent + 1 && if after == wire.len() {
                step is Done
            } else {
                step is Again
            },
            Polled::NotReady => after == sent && step is Again,
            Polled::Failed(e) => after == sent && step == Step::<
                (),
                SerializationError<E>,
            >::Stop(SerializationError::Other(e)),
        }
    }
}

/// A frame on its way to a sink: the staged bytes and how many of them the
/// sink has taken.
pub struct FrameSender {
    buffer: heapless::Vec<u8, 256>,
    sent: usize,
}

impl FrameSender {
    #[verifier::type_invariant]
    spec fn within_frame(self) -> bool {
        self.sent <= staged(self.buffer).len()
    }

    /// The bytes of the frame.
    pub closed spec fn wire(self) -> Seq<u8> {
        staged(self.buffer)
    }

    /// The number of bytes that the sink has taken.
    pub closed spec fn sent(self) -> nat {
        self.sent as nat
    }

    /// Stages the frame of `frame` for sending. A frame that does not fit
    /// the staging buffer is refused.
    pub fn new<E>(frame: &mut Outbound) -> (r: Result<FrameSender, SerializationError<E>>)
        ensures
            *final(frame) == *old(frame),
            match r {
                Ok(sender) => {
                    &&& old(frame).data_len() + 14 + OVERHEAD <= CAPACITY
                    &&& sender.wire() == wire_bytes(old(frame).payload())
                    &&& sender.sent() == 0
                },
                Err(e) => old(frame).data_len() + 14 + OVERHEAD > CAPACITY && e is WouldOverflow,
            },
    {
        match stage(frame) {
            Some(buffer) => Ok(FrameSender { buffer, sent: 0 }),
            None => Err(SerializationError::WouldOverflow),
        }
    }

    /// The byte that the sink is to take next, if one is left.
    pub fn pending(&self) -> (r: Option<u8>)
        ensures
            match r {
                Some(byte) => self.sent() < self.wire().len() && byte == self.wire()[
                    self.sent() as int
                ],
                None => self.sent() >= self.wire().len(),
            },
    {
        proof {
            use_type_invariant(self);
        }
        let bytes = staging_slice(&self.buffer);
        if self.sent < bytes.len() {
            Some(bytes[self.sent])
        } else {
            None
        }
    }

    /// Takes the answer of the sink to the pending byte.
    pub fn on_answer<E>(&mut self, answer: Polled<(), E>) -> (step: Step<
        (),
        SerializationError<E>,
    >)
        ensures
            final(self).wire() == old(self).wire(),
            sink_answered(old(self).wire(), old(self).sent(), answer, step, final(self).sent()),
    {
        proof {
            use_type_invariant(&*self);
        }
        let len = staging_slice(&self.buffer).len();
        if self.sent >= len {
            return Step::Done(());
        }
        match after_poll(answer) {
            Step::Done(_) => {
                self.sent = self.sent + 1;
                if self.sent == len {
                    Step::Done(())
                } else {
                    Step::Again
                }
            },
            Step::Again => Step::Again,
            Step::Stop(e) => Step::Stop(SerializationError::Other(e)),
        }
    }

    /// Hands the pending byte to `tx` once and takes its answer. The sink
    /// is not asked when every byte is out.
    ///
    /// The answer comes from the sink, so the contract speaks of it as of
    /// some answer: where that answer is ready, the sink has taken the
    /// pending byte. The sink stays what it was, so that it can be asked
    /// again.
    pub fn step<E, TX: FnMut(u8) -> Result<(), nb::Error<E>>>(&mut self, tx: &mut TX) -> (step:
        Step<(), SerializationError<E>>)
        requires
            forall|byte: u8| call_requires(*old(tx), (byte,)),
        ensures
            *final(tx) == *old(tx),
            final(self).wire() == old(self).wire(),
            old(self).sent() >= old(self).wire().len() ==> step is Done && final(self).sent()
                == old(self).sent(),
            old(self).sent() < old(self).wire().len() ==> exists|answer: Polled<(), E>|
                {
                    &&& answer is Ready ==> call_ensures(
                        *old(tx),
                        (old(self).wire()[old(self).sent() as int],),
                        Ok::<(), nb::Error<E>>(()),
                    )
                    &&& #[trigger] sink_answered(
                        old(self).wire(),
                        old(self).sent(),
                        answer,
                        step,
                        final(self).sent(),
                    )
                },
    {
        match self.pending() {
            Some(byte) => {
                let answer = polled(tx(byte));
                let ghost seen = answer;
                let step = self.on_answer(answer);
                assert(sink_answered(
                    old(self).wire(),
                    old(self).sent(),
                    seen,
                    step,
                    self.sent(),
                ));
                step
            },
            None => Step::Done(()),
        }
    }
}

/// Why no event could be read.
#[derive(Debug)]
pub enum DeserializationError<E> {
    /// The first byte was not the start delimiter.
    NoStart,
    /// The frame does not fit the staging buffer.
    WouldOverflow,
    /// The payload spells no event that is known; the byte is the one on
    /// which reading the payload failed.
    Unsupported(u8),
    /// The checksum does not fit the payload; the byte is the sum of the
    /// payload modulo 256.
    BadChecksum(u8),
    /// The transport failed.
    Other(E),
}

impl<E> From<u8> for DeserializationError<E> {
    /// The byte that the staging buffer gave back stands for an overflow.
    fn from(_e: u8) -> (r: DeserializationError<E>) {
        DeserializationError::WouldOverflow
    }
}

impl<E> vstd::std_specs::convert::FromSpecImpl<u8> for DeserializationError<E> {
    open spec fn obeys_from_spec() -> bool {
        true
    }

    open spec fn from_spec(_e: u8) -> DeserializationError<E> {
        DeserializationError::WouldOverflow
    }
}

/// The length that the two bytes of a length field declare, high byte first.
pub open spec fn declared_length(high: u8, low: u8) -> nat {
    (high as nat) * 256 + low as nat
}

/// The length that the two bytes of a length field declare.
pub fn frame_length(high: u8, low: u8) -> (len: usize)
    ensures
        len == declared_length(high, low),
{
    assert(((high as u16) << 8 | (low as u16)) == (high as u16) * 256 + (low as u16))
        by (bit_vector);
    ((high as u16) << 8 | (low as u16)) as usize
}

/// What the body of a frame, the payload and then the checksum, holds.
///
/// The sum of all the bytes has to be `0xFF` modulo 256; if it is not, the
/// failure carries the sum of the payload modulo 256. A payload that passes
/// is read as `parse_payload` says, and the byte on which that fails is
/// reported as unsupported. A body of the checksum alone has no tag: it is
/// reported as unsupported with 0 in place of the byte.
pub open spec fn unpack_frame<E>(body: Seq<u8>) -> Result<InboundView, DeserializationError<E>>
    recommends
        body.len() > 0,
{
    let payload = body.drop_last();
    let check = (byte_sum(payload) % 256) as u8;
    if (body.last() + check) % 256 != 0xFF {
        Err(DeserializationError::BadChecksum(check))
    } else if payload.len() == 0 {
        Err(DeserializationError::Unsupported(0))
    } else {
        match parse_payload(payload) {
            Ok(frame) => Ok(frame),
            Err(raw) => Err(DeserializationError::Unsupported(raw)),
        }
    }
}

/// The sum of `bytes` modulo 256.
fn sum_of(bytes: &[u8]) -> (sum: u8)
    ensures
        sum == byte_sum(bytes@) % 256,
{
    let mut sum: u8 = 0;
    let mut i: usize = 0;
    while i < bytes.len()
        invariant
            i <= bytes@.len(),
            sum == byte_sum(bytes@.take(i as int)) % 256,
        decreases bytes@.len() - i,
    {
        proof {
            lemma_byte_sum_push(bytes@.take(i as int), bytes@[i as int]);
            assert(bytes@.take(i + 1) =~= bytes@.take(i as int).push(bytes@[i as int]));
        }
        sum = sum.wrapping_add(bytes[i]);
        i += 1;
    }
    assert(bytes@.take(i as int) =~= bytes@);
    sum
}

/// Checks the checksum of the body of a frame and reads the event in its
/// payload.
pub fn unpack<'a, E>(buf: &'a [u8]) -> (r: Result<Inbound<'a>, DeserializationError<E>>)
    requires
        buf@.len() > 0,
    ensures
        match r {
            Ok(frame) => unpack_frame::<E>(buf@) == Ok::<InboundView, DeserializationError<E>>(
                frame@,
            ),
            Err(e) => unpack_frame::<E>(buf@) == Err::<InboundView, DeserializationError<E>>(e),
        },
{
    let last = buf.len() - 1;
    let checksum = buf[last];
    let data = &buf[0..last];
    assert(data@ =~= buf@.drop_last());
    let check = sum_of(data);
    if checksum.wrapping_add(check) != 0xFF {
        return Err(DeserializationError::BadChecksum(check));
    }
    if last == 0 {
        return Err(DeserializationError::Unsupported(0));
    }
    match Inbound::parse(data) {
        Ok(frame) => Ok(frame),
        Err(n) => Err(DeserializationError::Unsupported(n)),
    }
}

/// What the bytes `taken` of a stream come to, once the last of them is
/// in: nothing yet, an event, or an error.
///
/// A first byte that is not the start delimiter is an error at once. The
/// two bytes after the delimiter declare the length of the payload. The
/// body, the payload and one byte of checksum, follows them and is unpacked
/// when its last byte is in. A body that has outgrown the staging buffer
/// before that is an overflow.
pub open spec fn verdict<E>(taken: Seq<u8>) -> Option<
    Result<InboundView, DeserializationError<E>>,
> {
    if taken.len() == 0 {
        None
    } else if taken[0] != START {
        Some(Err(DeserializationError::NoStart))
    } else if taken.len() < 3 {
        None
    } else if taken.len() - 3 > CAPACITY {
        Some(Err(DeserializationError::WouldOverflow))
    } else if taken.len() - 3 == declared_length(taken[1], taken[2]) + 1 {
        Some(unpack_frame::<E>(taken.skip(3)))
    } else {
        None
    }
}

/// Whether `cont` has run on an event that reads as `event`.
pub open spec fn delivered<C: FnMut(Inbound) -> ()>(cont: C, event: InboundView) -> bool {
    exists|frame: Inbound| #[trigger] frame@ == event && call_ensures(cont, (frame,), ())
}

/// What one more byte does to the reading of a frame of which `before` is
/// in: while the bytes come to nothing yet, the byte is kept and the next
/// one is asked for; an event is handed to `cont` and ends the reading; an
/// error ends it too. After either end nothing is kept.
pub open spec fn took<E, C: FnMut(Inbound) -> ()>(
    before: Seq<u8>,
    byte: u8,
    cont: C,
    step: Step<(), DeserializationError<E>>,
    after: Seq<u8>,
) -> bool {
    match verdict::<E>(before.push(byte)) {
        None => step is Again && after == before.push(byte),
        Some(Ok(event)) => step is Done && after == Seq::<u8>::empty() && delivered(cont, event),
        Some(Err(e)) => step == Step::<(), DeserializationError<E>>::Stop(e) && after == Seq::<
            u8,
        >::empty(),
    }
}

/// What one answer of the source does to the reading of a frame of which
/// `before` is in: a byte is taken as `took` says; an answer that is not
/// ready changes nothing and asks again; a failure ends the reading with
/// the error of the transport, and nothing is kept.
pub open spec fn source_answered<E, C: FnMut(Inbound) -> ()>(
    before: Seq<u8>,
    answer: Polled<u8, E>,
    cont: C,
    step: Step<(), DeserializationError<E>>,
    after: Seq<u8>,
) -> bool {
    match answer {
        Polled::Ready(byte) => took(before, byte, cont, step, after),
        Polled::NotReady => step is Again && after == before,
        Polled::Failed(e) => step == Step::<(), DeserializationError<E>>::Stop(
            DeserializationError::Other(e),
        ) && after == Seq::<u8>::empty(),
    }
}

/// Where a receiver stands in its frame.
enum ReceiveState {
    Start,
    LenH,
    LenL,
    Body,
}

/// A frame on its way in: the bytes of it that the source has given.
pub struct FrameReceiver {
    state: ReceiveState,
    high: u8,
    low: u8,
    buffer: heapless::Vec<u8, 256>,
}

impl FrameReceiver {
    #[verifier::type_invariant]
    spec fn in_progress(self) -> bool {
        match self.state {
            ReceiveState::Body => staged(self.buffer).len() <= CAPACITY,
            _ => staged(self.buffer).len() == 0,
        }
    }

    /// The bytes of the frame that are in.
    pub closed spec fn taken(self) -> Seq<u8> {
        match self.state {
            ReceiveState::Start => Seq::<u8>::empty(),
            ReceiveState::LenH => seq![START],
            ReceiveState::LenL => seq![START, self.high],
            ReceiveState::Body => seq![START, self.high, self.low] + staged(self.buffer),
        }
    }

    /// A receiver that waits for the start of a frame.
    pub fn new() -> (receiver: FrameReceiver)
        ensures
            receiver.taken() == Seq::<u8>::empty(),
    {
        FrameReceiver { state: ReceiveState::Start, high: 0, low: 0, buffer: staging_new() }
    }

    /// Forgets what is in and waits for the start of a frame.
    fn reset(&mut self)
        ensures
            final(self).taken() == Seq::<u8>::empty(),
    {
        self.buffer = staging_new();
        self.state = ReceiveState::Start;
    }

    /// Takes the next byte of the stream.
    pub fn take<E, C: FnMut(Inbound) -> ()>(&mut self, byte: u8, cont: &mut C) -> (step: Step<
        (),
        DeserializationError<E>,
    >)
        requires
            forall|frame: Inbound| call_requires(*old(cont), (frame,)),
        ensures
            *final(cont) == *old(cont),
            took(old(self).taken(), byte, *old(cont), step, final(self).taken()),
    {
        proof {
            use_type_invariant(&*self);
        }
        let ghost before = self.taken();
        match self.state {
            ReceiveState::Start => {
                if byte != START {
                    return Step::Stop(DeserializationError::NoStart);
                }
                self.state = ReceiveState::LenH;
                assert(self.taken() =~= before.push(byte));
                Step::Again
            },
            ReceiveState::LenH => {
                self.high = byte;
                self.state = ReceiveState::LenL;
                assert(self.taken() =~= before.push(byte));
                Step::Again
            },
            ReceiveState::LenL => {
                self.low = byte;
                self.state = ReceiveState::Body;
                assert(self.taken() =~= before.push(byte));
                Step::Again
            },
            ReceiveState::Body => {
                let len = frame_length(self.high, self.low);
                match staging_push(&mut self.buffer, byte) {
                    Ok(()) => {},
                    Err(refused) => {
                        self.reset();
                        return Step::Stop(DeserializationError::from(refused));
                    },
                }
                assert(self.taken() =~= before.push(byte));
                assert(self.taken().skip(3) =~= staged(self.buffer));
                let body = staging_slice(&self.buffer);
                if body.len() != len + 1 {
                    return Step::Again;
                }
                let step = match unpack(body) {
                    Ok(frame) => {
                        let ghost event = frame@;
                        let ghost seen = frame;
                        cont(frame);
                        assert(seen@ == event && call_ensures(*old(cont), (seen,), ()));
                        Step::Done(())
                    },
                    Err(e) => Step::Stop(e),
                };
                self.reset();
                step
            },
        }
    }

    /// Takes the answer of the source.
    pub fn on_answer<E, C: FnMut(Inbound) -> ()>(
        &mut self,
        answer: Polled<u8, E>,
        cont: &mut C,
    ) -> (step: Step<(), DeserializationError<E>>)
        requires
            forall|frame: Inbound| call_requires(*old(cont), (frame,)),
        ensures
            *final(cont) == *old(cont),
            source_answered(old(self).taken(), answer, *old(cont), step, final(self).taken()),
    {
        match after_poll(answer) {
            Step::Done(byte) => self.take(byte, cont),
            Step::Again => Step::Again,
            Step::Stop(e) => {
                self.reset();
                Step::Stop(DeserializationError::Other(e))
            },
        }
    }

    /// Asks `rx` once for the next byte and takes its answer.
    ///
    /// The answer comes from the source, so the contract speaks of it as of
    /// some answer: where that answer is a byte, the source has given it.
    /// Source and continuation stay what they were, so that they can be
    /// used again.
    pub fn step<E, RX: FnMut() -> Result<u8, nb::Error<E>>, C: FnMut(Inbound) -> ()>(
        &mut self,
        rx: &mut RX,
        cont: &mut C,
    ) -> (step: Step<(), DeserializationError<E>>)
        requires
            call_requires(*old(rx), ()),
            forall|frame: Inbound| call_requires(*old(cont), (frame,)),
        ensures
            *final(rx) == *old(rx),
            *final(cont) == *old(cont),
            exists|answer: Polled<u8, E>|
                {
                    &&& answer is Ready ==> call_ensures(
                        *old(rx),
                        (),
                        Ok::<u8, nb::Error<E>>(answer->Ready_0),
                    )
                    &&& #[trigger] source_answered(
                        old(self).taken(),
                        answer,
                        *old(cont),
                        step,
                        final(self).taken(),
                    )
                },
    {
        let answer = polled(rx());
        let ghost seen = answer;
        let step = self.on_answer(answer, cont);
        assert(source_answered(old(self).taken(), seen, *old(cont), step, self.taken()));
        step
    }
}

/// The frame of a command is four bytes longer than its payload: eighteen
/// bytes and the data.
pub proof fn lemma_wire_len(frame: Outbound)
    ensures
        wire_bytes(frame.payload()).len() == 14 + frame.data_len() + OVERHEAD,
{
    frame.lemma_payload_len();
}

/// In every frame the bytes from the tag through the checksum add up to
/// `0xFF` modulo 256.
pub proof fn lemma_wire_checksum(payload: Seq<u8>)
    ensures
        byte_sum(wire_bytes(payload).skip(3)) % 256 == 0xFF,
{
    lemma_checksum_completes(payload);
    assert(wire_bytes(payload).skip(3) =~= payload.push(checksum_of(payload)));
}

/// A first byte that is not the start delimiter ends the reading at once.
pub proof fn lemma_no_start<E>(first: u8)
    requires
        first != START,
    ensures
        verdict::<E>(seq![first]) == Some(
            Err::<InboundView, DeserializationError<E>>(DeserializationError::NoStart),
        ),
{
}

/// After the delimiter and a length field that declares less than 256 bytes
/// of payload, exactly that many bytes and one more are read: the bytes come
/// to nothing before the last of them is in, and to what unpacking the body
/// gives when it is.
pub proof fn lemma_body_length<E>(taken: Seq<u8>)
    requires
        taken.len() >= 3,
        taken[0] == START,
        declared_length(taken[1], taken[2]) < CAPACITY,
    ensures
        forall|k: int| 0 <= k < taken.len() && k < declared_length(taken[1], taken[2]) + 4
            ==> (#[trigger] verdict::<E>(taken.take(k))) is None,
        taken.len() == declared_length(taken[1], taken[2]) + 4 ==> verdict::<E>(taken) == Some(
            unpack_frame::<E>(taken.skip(3)),
        ),
{
    assert forall|k: int| 0 <= k < taken.len() && k < declared_length(taken[1], taken[2]) + 4
        implies (#[trigger] verdict::<E>(taken.take(k))) is None by {
        let prefix = taken.take(k);
        if k >= 3 {
            assert(prefix[0] == taken[0] && prefix[1] == taken[1] && prefix[2] == taken[2]);
        } else if k >= 1 {
            assert(prefix[0] == taken[0]);
        }
    }
}

/// After the delimiter and a length field that declares 256 bytes of
/// payload or more, the reading ends in an overflow with the byte that the
/// staging buffer cannot take, the 257th of the body, and not before.
pub proof fn lemma_overflow<E>(taken: Seq<u8>)
    requires
        taken.len() == 3 + CAPACITY + 1,
        taken[0] == START,
        declared_length(taken[1], taken[2]) >= CAPACITY,
    ensures
        forall|k: int| 0 <= k < taken.len() ==> (#[trigger] verdict::<E>(taken.take(k))) is None,
        verdict::<E>(taken) == Some(
            Err::<InboundView, DeserializationError<E>>(DeserializationError::WouldOverflow),
        ),
{
    assert forall|k: int| 0 <= k < taken.len() implies (#[trigger] verdict::<E>(
        taken.take(k),
    )) is None by {
        let prefix = taken.take(k);
        if k >= 3 {
            assert(prefix[0] == taken[0] && prefix[1] == taken[1] && prefix[2] == taken[2]);
        } else if k >= 1 {
            assert(prefix[0] == taken[0]);
        }
    }
}

/// What is framed can be unframed: the frame of a payload of 1 to 255 bytes
/// starts with the delimiter, declares the length of the payload and fits
/// the staging buffer; read byte by byte, it comes to nothing before its
/// last byte and then to what `parse_payload` reads in the payload.
pub proof fn lemma_round_trip<E>(payload: Seq<u8>)
    requires
        0 < payload.len() <= 255,
    ensures
        ({
            let wire = wire_bytes(payload);
            &&& wire[0] == START
            &&& declared_length(wire[1], wire[2]) == payload.len()
            &&& wire.skip(3).len() == payload.len() + 1
            &&& wire.skip(3).len() <= CAPACITY
            &&& wire.skip(3).drop_last() == payload
            &&& unpack_frame::<E>(wire.skip(3)) == match parse_payload(payload) {
                Ok(frame) => Ok::<InboundView, DeserializationError<E>>(frame),
                Err(raw) => Err::<InboundView, DeserializationError<E>>(
                    DeserializationError::Unsupported(raw),
                ),
            }
            &&& forall|k: int|
                0 <= k < wire.len() ==> (#[trigger] verdict::<E>(wire.take(k))) is None
            &&& verdict::<E>(wire) == Some(unpack_frame::<E>(wire.skip(3)))
        }),
{
    let wire = wire_bytes(payload);
    let body = wire.skip(3);
    lemma_checksum_completes(payload);
    assert(body =~= payload.push(checksum_of(payload)));
    assert(body.drop_last() =~= payload);
    lemma_body_length::<E>(wire);
}

/// The frame of a transmit request with at most 241 bytes of data passes the
/// framing and the checksum of the reading side, which then refuses its
/// payload by the tag: no event has the tag of a command. (A sender stages
/// such a frame only up to 238 bytes of data: the staging buffer holds the
/// four bytes around the payload too.)
pub proof fn lemma_tx_request_round_trip<E>(frame: Outbound)
    requires
        frame.data_len() <= 241,
    ensures
        ({
            let wire = wire_bytes(frame.payload());
            &&& wire[0] == START
            &&& declared_length(wire[1], wire[2]) == 14 + frame.data_len()
            &&& wire.skip(3).len() <= CAPACITY
            &&& wire.skip(3).drop_last() == frame.payload()
            &&& unpack_frame::<E>(wire.skip(3)) == Err::<InboundView, DeserializationError<E>>(
                DeserializationError::Unsupported(TX_REQUEST),
            )
            &&& verdict::<E>(wire) == Some(
                Err::<InboundView, DeserializationError<E>>(
                    DeserializationError::Unsupported(TX_REQUEST),
                ),
            )
        }),
{
    frame.lemma_payload_len();
    lemma_round_trip::<E>(frame.payload());
    assert(frame.payload()[0] == TX_REQUEST);
}

/// Two commands with the same fields and the same data have the same frame:
/// encoding a command again gives the same bytes.
pub proof fn lemma_encoding_repeats(first: Outbound, second: Outbound)
    requires
        first.payload() == second.payload(),
    ensures
        wire_bytes(first.payload()) == wire_bytes(second.payload()),
{
}

/// A body whose checksum fits and whose payload starts with a tag that is
/// neither that of a received packet nor that of a transmit status is
/// reported as unsupported, with that tag.
pub proof fn lemma_unknown_tag<E>(body: Seq<u8>)
    requires
        body.len() >= 2,
        byte_sum(body) % 256 == 0xFF,
        body[0] != RX_PACKET,
        body[0] != TRANSMIT_STATUS,
    ensures
        unpack_frame::<E>(body) == Err::<InboundView, DeserializationError<E>>(
            DeserializationError::Unsupported(body[0]),
        ),
{
    lemma_byte_sum_push(body.drop_last(), body.last());
    assert(body.drop_last().push(body.last()) =~= body);
}

} // verus!
