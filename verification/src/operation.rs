//! One operation on the link, as a machine that is fed events.
//!
//! An operation is a plan, a list of steps, worked through from the first
//! step to the last. While it runs it names the one action it waits for;
//! the answer to that action moves it on. A plan may be tried again from its
//! first step when a step fails.

use crate::commands::Command;
use crate::constants::{
    ACK, ATTEMPTS, PACKET_SIZE, PIECEMEAL_CHUNK_RECV, RDB_CONF_DESCRIPTOR, STATUS_END,
};
use crate::error::{LibBBError, UsbError};
use crate::player_comms::{
    body_packets, command_ret, command_value, copy_bytes, declared_length,
    decode_piecemeal_data, packet_size, piecemeal_in_step, Reading,
    is_length_header, is_ready_signal, lemma_piecemeal_encoding_len,
    lemma_piecemeal_round_trip, length_header, next_packet, parse_length_header,
    piecemeal_decoding, piecemeal_encoding, ready_signal, reply_room, reply_status, reply_value,
    room_for,
};
use crate::usb::{Action, ActionView, Event, EventView, Request};
use vstd::prelude::*;

verus! {

/// Which error a negative status word becomes.
#[derive(Clone, Copy, Debug, PartialEq, Eq, Structural)]
pub enum Fault {
    Command(Command),
    CheckBlockWrite,
    InitFS,
    SetTime,
    GetBBID,
}

impl Fault {
    /// The error for status `ret`.
    pub open spec fn spec_raise(self, ret: i32) -> LibBBError {
        match self {
            Fault::Command(c) => LibBBError::Command(c, ret),
            Fault::CheckBlockWrite => LibBBError::CheckBlockWrite(ret),
            Fault::InitFS => LibBBError::InitFS(ret),
            Fault::SetTime => LibBBError::SetTime(ret),
            Fault::GetBBID => LibBBError::GetBBID(ret),
        }
    }

    #[verifier::when_used_as_spec(spec_raise)]
    pub fn raise(self, ret: i32) -> (e: LibBBError)
        ensures
            e == self.spec_raise(ret),
    {
        match self {
            Fault::Command(c) => LibBBError::Command(c, ret),
            Fault::CheckBlockWrite => LibBBError::CheckBlockWrite(ret),
            Fault::InitFS => LibBBError::InitFS(ret),
            Fault::SetTime => LibBBError::SetTime(ret),
            Fault::GetBBID => LibBBError::GetBBID(ret),
        }
    }
}

/// What is done with a reply once it is decoded.
#[derive(Clone, Copy, Debug, PartialEq, Eq, Structural)]
pub enum Use {
    /// Nothing: the reply only has to arrive.
    Discard,
    /// Its status word must not be negative.
    Status(Fault),
    /// Its bytes four to seven are the number asked for; where a fault is
    /// named, its status word must not be negative either.
    Value(Option<Fault>),
    /// Its status word is zero for yes and anything else for no.
    Verdict,
    /// It is gathered, whatever its length.
    Block,
    /// It is the next chunk of a block: it is gathered, and must hold as
    /// many bytes as the step takes at most, no fewer.
    Chunk,
    /// It is the spare area that goes with the gathered block, and must
    /// hold as many bytes as the step takes at most, no fewer.
    Spare,
}

/// One step of a plan.
#[derive(Clone, Debug, PartialEq, Eq)]
pub enum Step {
    /// Receive four bytes, again and again, until they are the ready signal.
    Ready,
    /// Send these bytes in one transfer.
    Send(Vec<u8>),
    /// Receive up to so many bytes in one transfer and gather them.
    Receive(usize),
    /// Receive a reply of at most so many bytes and put it to use.
    Reply(usize, Use),
    /// Have a request carried out.
    Perform(Request),
    /// Ask whether a kernel driver holds the interface, and detach it if so.
    DetachDriver,
    /// Ask for the active configuration; it must be the expected one.
    CheckConfiguration,
    /// Have the file table read; one must be found.
    LoadFilesystem,
}

/// A step with its bytes as a sequence.
pub enum StepView {
    Ready,
    Send(Seq<u8>),
    Receive(nat),
    Reply(nat, Use),
    Perform(Request),
    DetachDriver,
    CheckConfiguration,
    LoadFilesystem,
}

impl View for Step {
    type V = StepView;

    open spec fn view(&self) -> StepView {
        match self {
            Step::Ready => StepView::Ready,
            Step::Send(bytes) => StepView::Send(bytes@),
            Step::Receive(max) => StepView::Receive(*max as nat),
            Step::Reply(max, put) => StepView::Reply(*max as nat, *put),
            Step::Perform(request) => StepView::Perform(*request),
            Step::DetachDriver => StepView::DetachDriver,
            Step::CheckConfiguration => StepView::CheckConfiguration,
            Step::LoadFilesystem => StepView::LoadFilesystem,
        }
    }
}

/// The steps of a plan, each by its view.
pub open spec fn plan_view(plan: Seq<Step>) -> Seq<StepView> {
    plan.map_values(|s: Step| s@)
}

/// Where an operation stands within its current step.
#[derive(Clone, Copy, Debug, PartialEq, Eq, Structural)]
pub enum Phase {
    /// At the step's first action.
    Begin,
    /// Reading the body of a reply.
    Body,
    /// Waiting for the acknowledgment of a reply to go out.
    Ack,
    /// Waiting for the kernel driver to be detached.
    Detach,
}

/// The form of what an operation hands back when it succeeds.
#[derive(Clone, Copy, Debug, PartialEq, Eq, Structural)]
pub enum Shape {
    Nothing,
    Number,
    Flag,
    Bytes,
    BlockSpare,
}

/// What a successful operation hands back.
#[derive(Clone, Debug, PartialEq, Eq)]
pub enum Reply {
    Nothing,
    Number(u32),
    Flag(bool),
    Bytes(Vec<u8>),
    BlockSpare(Vec<u8>, Vec<u8>),
}

/// A reply with its bytes as sequences.
pub enum ReplyView {
    Nothing,
    Number(u32),
    Flag(bool),
    Bytes(Seq<u8>),
    BlockSpare(Seq<u8>, Seq<u8>),
}

impl View for Reply {
    type V = ReplyView;

    open spec fn view(&self) -> ReplyView {
        match self {
            Reply::Nothing => ReplyView::Nothing,
            Reply::Number(n) => ReplyView::Number(*n),
            Reply::Flag(b) => ReplyView::Flag(*b),
            Reply::Bytes(bytes) => ReplyView::Bytes(bytes@),
            Reply::BlockSpare(block, spare) => ReplyView::BlockSpare(block@, spare@),
        }
    }
}

/// How an operation ended, with the bytes of a reply as sequences.
pub open spec fn outcome_view(outcome: Option<Result<Reply, LibBBError>>) -> Option<
    Result<ReplyView, LibBBError>,
> {
    match outcome {
        None => None,
        Some(Ok(reply)) => Some(Ok(reply@)),
        Some(Err(e)) => Some(Err(e)),
    }
}

/// What an answer does to the step that waited for it.
pub enum Turn {
    /// The step goes on, in this phase, with this declared length and these
    /// body bytes.
    Stay(Phase, nat, Seq<u8>),
    /// The step is done.
    Next(Gain),
    /// The step failed; the plan may be tried again.
    Fail(LibBBError),
    /// Host and device are out of step: the reply does not hold the bytes
    /// that it declared, or has no room for the status word that it must
    /// bring. Such an answer is not to be fed.
    OutOfStep,
}

/// What a finished step leaves behind.
pub enum Gain {
    Nothing,
    Number(u32),
    Flag(bool),
    Block(Seq<u8>),
    Spare(Seq<u8>),
}

/// The answer to a poll for the ready signal: four bytes that are the
/// signal end the poll, four other bytes repeat it, any other number of
/// bytes is `Io`.
pub open spec fn turn_ready(event: EventView) -> Turn {
    match event {
        EventView::Received(bytes) => if bytes.len() != 4 {
            Turn::Fail(LibBBError::USB(UsbError::Io))
        } else if bytes == ready_signal() {
            Turn::Next(Gain::Nothing)
        } else {
            Turn::Stay(Phase::Begin, 0, Seq::empty())
        },
        _ => Turn::Fail(event.failure()),
    }
}

/// The answer to a send: however many bytes are reported written, the step
/// is done.
pub open spec fn turn_send(event: EventView) -> Turn {
    match event {
        EventView::Sent(_) => Turn::Next(Gain::Nothing),
        _ => Turn::Fail(event.failure()),
    }
}

/// The answer to a receive: the bytes that came are gathered, however few;
/// more bytes than were asked for is `Overflow`.
pub open spec fn turn_receive(max: nat, event: EventView) -> Turn {
    match event {
        EventView::Received(bytes) => if bytes.len() > max {
            Turn::Fail(LibBBError::USB(UsbError::Overflow))
        } else {
            Turn::Next(Gain::Block(bytes))
        },
        _ => Turn::Fail(event.failure()),
    }
}

/// The answer to the read of a reply's length header. A stray ready signal
/// is passed over; anything but a length header is `Io`; a declared length
/// of zero or of more than `max` is `InvalidParam`.
pub open spec fn turn_header(max: nat, event: EventView) -> Turn {
    match event {
        EventView::Received(bytes) => if bytes == ready_signal() {
            Turn::Stay(Phase::Begin, 0, Seq::empty())
        } else if !is_length_header(bytes) {
            Turn::Fail(LibBBError::USB(UsbError::Io))
        } else if declared_length(bytes) == 0 || declared_length(bytes) > max {
            Turn::Fail(LibBBError::USB(UsbError::InvalidParam))
        } else {
            Turn::Stay(Phase::Body, declared_length(bytes), Seq::empty())
        },
        _ => Turn::Fail(event.failure()),
    }
}

/// The answer to the read of one packet of a reply's body. A full packet
/// asks for another; a short one ends the body. More bytes than were asked
/// for is `Overflow`.
pub open spec fn turn_body(expected: nat, buf: Seq<u8>, event: EventView) -> Turn {
    match event {
        EventView::Received(bytes) => if bytes.len() > next_packet(expected, buf.len()) {
            Turn::Fail(LibBBError::USB(UsbError::Overflow))
        } else if bytes.len() == PACKET_SIZE {
            Turn::Stay(Phase::Body, expected, buf + bytes)
        } else {
            Turn::Stay(Phase::Ack, expected, buf + bytes)
        },
        _ => Turn::Fail(event.failure()),
    }
}

/// What a decoded reply does to a step that takes at most `max` bytes.
/// A reply that is to bring a status word and has no room for one is out
/// of step; a chunk or a spare area of another length than `max` fails the
/// step with `InvalidParam`.
pub open spec fn turn_use(put: Use, max: nat, data: Seq<u8>) -> Turn {
    match put {
        Use::Discard => Turn::Next(Gain::Nothing),
        Use::Status(fault) => if data.len() < STATUS_END {
            Turn::OutOfStep
        } else if reply_status(data) < 0 {
            Turn::Fail(fault.spec_raise(reply_status(data)))
        } else {
            Turn::Next(Gain::Nothing)
        },
        Use::Value(None) => if data.len() < STATUS_END {
            Turn::OutOfStep
        } else {
            Turn::Next(Gain::Number(reply_value(data)))
        },
        Use::Value(Some(fault)) => if data.len() < STATUS_END {
            Turn::OutOfStep
        } else if reply_status(data) < 0 {
            Turn::Fail(fault.spec_raise(reply_status(data)))
        } else {
            Turn::Next(Gain::Number(reply_value(data)))
        },
        Use::Verdict => if data.len() < STATUS_END {
            Turn::OutOfStep
        } else {
            Turn::Next(Gain::Flag(reply_status(data) == 0))
        },
        Use::Block => Turn::Next(Gain::Block(data)),
        Use::Chunk => if data.len() != max {
            Turn::Fail(LibBBError::USB(UsbError::InvalidParam))
        } else {
            Turn::Next(Gain::Block(data))
        },
        Use::Spare => if data.len() != max {
            Turn::Fail(LibBBError::USB(UsbError::InvalidParam))
        } else {
            Turn::Next(Gain::Spare(data))
        },
    }
}

/// The answer to the acknowledgment of a reply: the body is decoded and put
/// to use. A body that does not hold the declared number of bytes is out of
/// step.
pub open spec fn turn_ack(put: Use, max: nat, expected: nat, buf: Seq<u8>, event: EventView)
    -> Turn {
    match event {
        EventView::Sent(_) => match piecemeal_decoding(buf, expected) {
            Reading::Payload(data) => turn_use(put, max, data),
            Reading::Refused(e) => Turn::Fail(e),
            Reading::OutOfStep => Turn::OutOfStep,
        },
        _ => Turn::Fail(event.failure()),
    }
}

/// The answer to a request that only has to be carried out.
pub open spec fn turn_perform(event: EventView) -> Turn {
    match event {
        EventView::Done => Turn::Next(Gain::Nothing),
        _ => Turn::Fail(event.failure()),
    }
}

/// The answer to the question whether a kernel driver holds the interface.
pub open spec fn turn_driver(event: EventView) -> Turn {
    match event {
        EventView::Flag(true) => Turn::Stay(Phase::Detach, 0, Seq::empty()),
        EventView::Flag(false) => Turn::Next(Gain::Nothing),
        _ => Turn::Fail(event.failure()),
    }
}

/// The answer to the question for the active configuration: anything but
/// the expected number, a failure to tell included, is `BadDescriptor`.
pub open spec fn turn_configuration(event: EventView) -> Turn {
    match event {
        EventView::Number(n) => if n == RDB_CONF_DESCRIPTOR {
            Turn::Next(Gain::Nothing)
        } else {
            Turn::Fail(LibBBError::USB(UsbError::BadDescriptor))
        },
        _ => Turn::Fail(LibBBError::USB(UsbError::BadDescriptor)),
    }
}

/// The answer to the reading of the file table: a device without one is `FS`.
pub open spec fn turn_filesystem(event: EventView) -> Turn {
    match event {
        EventView::Flag(true) => Turn::Next(Gain::Nothing),
        EventView::Flag(false) => Turn::Fail(LibBBError::FS),
        _ => Turn::Fail(event.failure()),
    }
}

/// What an answer does to a step that stands in a given phase.
pub open spec fn turn(step: StepView, phase: Phase, expected: nat, buf: Seq<u8>, event: EventView)
    -> Turn {
    match step {
        StepView::Ready => turn_ready(event),
        StepView::Send(_) => turn_send(event),
        StepView::Receive(max) => turn_receive(max, event),
        StepView::Reply(max, put) => match phase {
            Phase::Body => turn_body(expected, buf, event),
            Phase::Ack => turn_ack(put, max, expected, buf, event),
            _ => turn_header(max, event),
        },
        StepView::Perform(_) => turn_perform(event),
        StepView::DetachDriver => match phase {
            Phase::Detach => turn_perform(event),
            _ => turn_driver(event),
        },
        StepView::CheckConfiguration => turn_configuration(event),
        StepView::LoadFilesystem => turn_filesystem(event),
    }
}

/// The action that a step waits for in a given phase.
pub open spec fn step_action(step: StepView, phase: Phase, expected: nat, have: nat)
    -> ActionView {
    match step {
        StepView::Ready => ActionView::Receive(4),
        StepView::Send(bytes) => ActionView::Send(bytes),
        StepView::Receive(max) => ActionView::Receive(max),
        StepView::Reply(_, _) => match phase {
            Phase::Body => ActionView::Receive(next_packet(expected, have)),
            Phase::Ack => ActionView::Send(seq![ACK]),
            _ => ActionView::Receive(4),
        },
        StepView::Perform(request) => ActionView::Ask(request),
        StepView::DetachDriver => match phase {
            Phase::Detach => ActionView::Ask(Request::DetachKernelDriver),
            _ => ActionView::Ask(Request::KernelDriverActive),
        },
        StepView::CheckConfiguration => ActionView::Ask(Request::ActiveConfiguration),
        StepView::LoadFilesystem => ActionView::Ask(Request::LoadFilesystem),
    }
}

/// The state of an operation.
pub struct OperationView {
    /// The steps to work through.
    pub plan: Seq<StepView>,
    /// The form of the result.
    pub shape: Shape,
    /// `None` where the plan is tried once and a failure is handed on as it
    /// is; the error to end with where the plan is tried `ATTEMPTS` times.
    pub exhausted: Option<LibBBError>,
    /// The step that is being worked on.
    pub pc: nat,
    /// Where that step stands.
    pub phase: Phase,
    /// The declared length of the reply that is being read.
    pub expected: nat,
    /// The body bytes of that reply so far.
    pub buf: Seq<u8>,
    /// How many tries have failed.
    pub attempt: nat,
    /// Why the last of them failed.
    pub last_failure: Option<LibBBError>,
    /// The number that a reply brought.
    pub number: u32,
    /// The verdict that a reply brought.
    pub flag: bool,
    /// The data gathered from replies.
    pub block: Seq<u8>,
    /// The spare area that a reply brought.
    pub spare: Seq<u8>,
    /// How the operation ended, once it has.
    pub done: Option<Result<(), LibBBError>>,
}

impl OperationView {
    /// An operation that has not asked for anything yet. One without steps
    /// has succeeded already.
    pub open spec fn start(plan: Seq<StepView>, shape: Shape, exhausted: Option<LibBBError>)
        -> OperationView {
        OperationView {
            plan,
            shape,
            exhausted,
            pc: 0,
            phase: Phase::Begin,
            expected: 0,
            buf: Seq::empty(),
            attempt: 0,
            last_failure: None,
            number: 0,
            flag: false,
            block: Seq::empty(),
            spare: Seq::empty(),
            done: if plan.len() == 0 {
                Some(Ok(()))
            } else {
                None
            },
        }
    }

    /// An operation that ended before it asked for anything.
    pub open spec fn ended(result: Result<(), LibBBError>) -> OperationView {
        OperationView { done: Some(result), ..Self::start(Seq::empty(), Shape::Nothing, None) }
    }

    /// What holds of every operation that the library makes: it has not
    /// failed more often than it may; away from a reply it holds no bytes of
    /// one; and while it reads a reply, the declared length is one that the
    /// step takes, and the bytes read fit the room set aside for them.
    pub open spec fn wf(self) -> bool {
        &&& self.attempt <= ATTEMPTS
        &&& match self.phase {
            Phase::Begin => self.expected == 0 && self.buf == Seq::<u8>::empty(),
            Phase::Detach => self.expected == 0 && self.buf == Seq::<u8>::empty()
                && self.done is None && self.plan[self.pc as int] is DetachDriver,
            Phase::Body => self.reading() && self.buf.len() <= reply_room(self.expected),
            Phase::Ack => self.reading(),
        }
        &&& self.done is None ==> self.pc < self.plan.len() && self.attempt < ATTEMPTS
    }

    /// Whether the operation is at a reply whose declared length the step
    /// takes.
    pub open spec fn reading(self) -> bool {
        &&& self.done is None
        &&& self.plan[self.pc as int] is Reply
        &&& 0 < self.expected <= self.plan[self.pc as int]->Reply_0
        &&& self.expected <= 0xFF_FFFF
    }

    /// The action that the operation waits for; none once it has ended.
    pub open spec fn pending(self) -> Option<ActionView> {
        if self.done is Some {
            None
        } else {
            Some(step_action(self.plan[self.pc as int], self.phase, self.expected, self.buf.len()))
        }
    }

    /// Whether the operation has ended.
    pub open spec fn finished(self) -> bool {
        self.done is Some
    }

    /// How the operation ended, and what it hands back.
    pub open spec fn outcome(self) -> Option<Result<ReplyView, LibBBError>> {
        match self.done {
            None => None,
            Some(Err(e)) => Some(Err(e)),
            Some(Ok(())) => Some(
                Ok(
                    match self.shape {
                        Shape::Nothing => ReplyView::Nothing,
                        Shape::Number => ReplyView::Number(self.number),
                        Shape::Flag => ReplyView::Flag(self.flag),
                        Shape::Bytes => ReplyView::Bytes(self.block),
                        Shape::BlockSpare => ReplyView::BlockSpare(self.block, self.spare),
                    },
                ),
            ),
        }
    }

    /// The operation with what a finished step left behind.
    pub open spec fn gain(self, gain: Gain) -> OperationView {
        match gain {
            Gain::Nothing => self,
            Gain::Number(n) => OperationView { number: n, ..self },
            Gain::Flag(b) => OperationView { flag: b, ..self },
            Gain::Block(data) => OperationView { block: self.block + data, ..self },
            Gain::Spare(data) => OperationView { spare: data, ..self },
        }
    }

    /// The operation ended.
    pub open spec fn finish(self, result: Result<(), LibBBError>) -> OperationView {
        OperationView {
            phase: Phase::Begin,
            expected: 0,
            buf: Seq::empty(),
            done: Some(result),
            ..self
        }
    }

    /// The operation at its next step, or ended in success after the last.
    pub open spec fn advance(self) -> OperationView {
        OperationView {
            pc: self.pc + 1,
            phase: Phase::Begin,
            expected: 0,
            buf: Seq::empty(),
            done: if self.pc + 1 >= self.plan.len() {
                Some(Ok(()))
            } else {
                None
            },
            ..self
        }
    }

    /// The operation after a failed step: ended with the failure where the
    /// plan is tried once; back at the first step, with nothing gathered,
    /// where tries are left; ended with the error for running out of them
    /// otherwise.
    pub open spec fn fail(self, e: LibBBError) -> OperationView {
        match self.exhausted {
            None => self.finish(Err(e)),
            Some(last) => if self.attempt + 1 >= ATTEMPTS {
                OperationView {
                    attempt: self.attempt + 1,
                    last_failure: Some(e),
                    ..self.finish(Err(last))
                }
            } else {
                OperationView {
                    pc: 0,
                    phase: Phase::Begin,
                    expected: 0,
                    buf: Seq::empty(),
                    attempt: self.attempt + 1,
                    last_failure: Some(e),
                    number: 0,
                    flag: false,
                    block: Seq::empty(),
                    spare: Seq::empty(),
                    ..self
                }
            },
        }
    }

    /// The operation further on in its current step.
    pub open spec fn stay(self, phase: Phase, expected: nat, buf: Seq<u8>) -> OperationView {
        OperationView { phase, expected, buf, ..self }
    }

    /// The operation after a turn of its current step.
    pub open spec fn after(self, turn: Turn) -> OperationView {
        match turn {
            Turn::Stay(phase, expected, buf) => self.stay(phase, expected, buf),
            Turn::Next(gain) => self.gain(gain).advance(),
            Turn::Fail(e) => self.fail(e),
            Turn::OutOfStep => self,
        }
    }

    /// Whether an answer can be fed: it does not show host and device to
    /// be out of step. An operation that has ended takes every answer.
    pub open spec fn takes(self, event: EventView) -> bool {
        self.done is Some || !(turn(
            self.plan[self.pc as int],
            self.phase,
            self.expected,
            self.buf,
            event,
        ) is OutOfStep)
    }

    /// The operation after the answer to its pending action. An operation
    /// that has ended takes no notice of events, and an answer that is not
    /// to be fed leaves every operation as it is.
    pub open spec fn fed(self, event: EventView) -> OperationView {
        if self.done is Some {
            self
        } else {
            self.after(
                turn(self.plan[self.pc as int], self.phase, self.expected, self.buf, event),
            )
        }
    }

    /// Whether every answer of a run can be fed in its turn.
    pub open spec fn takes_all(self, events: Seq<EventView>) -> bool
        decreases events.len(),
    {
        events.len() == 0 || (self.takes(events[0]) && self.fed(events[0]).takes_all(
            events.skip(1),
        ))
    }

    /// The operation after a run of answers.
    pub open spec fn run(self, events: Seq<EventView>) -> OperationView
        decreases events.len(),
    {
        if events.len() == 0 {
            self
        } else {
            self.fed(events[0]).run(events.skip(1))
        }
    }

    /// The actions that the operation asks for in the course of a run of
    /// answers, the one it waits for at the end not included.
    pub open spec fn asked(self, events: Seq<EventView>) -> Seq<ActionView>
        decreases events.len(),
    {
        if events.len() == 0 {
            Seq::empty()
        } else {
            match self.pending() {
                Some(action) => seq![action] + self.fed(events[0]).asked(events.skip(1)),
                None => Seq::empty(),
            }
        }
    }
}

/// A step without its bytes.
#[derive(Clone, Copy)]
enum Kind {
    Ready,
    Send,
    Receive(usize),
    Reply(usize, Use),
    Perform(Request),
    DetachDriver,
    CheckConfiguration,
    LoadFilesystem,
}

/// An operation on the link.
///
/// `pending` names the action to perform, `feed` takes its answer, and
/// `outcome` tells how the operation ended once `pending` names nothing.
#[derive(Debug)]
pub struct Operation {
    plan: Vec<Step>,
    shape: Shape,
    exhausted: Option<LibBBError>,
    pc: usize,
    phase: Phase,
    expected: usize,
    buf: Vec<u8>,
    attempt: u8,
    last_failure: Option<LibBBError>,
    number: u32,
    flag: bool,
    block: Vec<u8>,
    spare: Vec<u8>,
    done: Option<Result<(), LibBBError>>,
}

impl View for Operation {
    type V = OperationView;

    closed spec fn view(&self) -> OperationView {
        OperationView {
            plan: plan_view(self.plan@),
            shape: self.shape,
            exhausted: self.exhausted,
            pc: self.pc as nat,
            phase: self.phase,
            expected: self.expected as nat,
            buf: self.buf@,
            attempt: self.attempt as nat,
            last_failure: self.last_failure,
            number: self.number,
            flag: self.flag,
            block: self.block@,
            spare: self.spare@,
            done: self.done,
        }
    }
}

impl Operation {
    #[verifier::type_invariant]
    spec fn inv(self) -> bool {
        self@.wf()
    }

    /// An operation that will work through `plan`.
    pub fn new(plan: Vec<Step>, shape: Shape, exhausted: Option<LibBBError>) -> (op: Operation)
        ensures
            op@ == OperationView::start(plan_view(plan@), shape, exhausted),
            op@.wf(),
    {
        let done = if plan.len() == 0 {
            Some(Ok(()))
        } else {
            None
        };
        Operation {
            plan,
            shape,
            exhausted,
            pc: 0,
            phase: Phase::Begin,
            expected: 0,
            buf: Vec::new(),
            attempt: 0,
            last_failure: None,
            number: 0,
            flag: false,
            block: Vec::new(),
            spare: Vec::new(),
            done,
        }
    }

    /// An operation that has ended before it asked for anything.
    pub fn ended(result: Result<(), LibBBError>) -> (op: Operation)
        ensures
            op@ == OperationView::ended(result),
            op@.wf(),
    {
        let plan: Vec<Step> = Vec::new();
        assert(plan_view(plan@) =~= Seq::<StepView>::empty());
        Operation {
            plan,
            shape: Shape::Nothing,
            exhausted: None,
            pc: 0,
            phase: Phase::Begin,
            expected: 0,
            buf: Vec::new(),
            attempt: 0,
            last_failure: None,
            number: 0,
            flag: false,
            block: Vec::new(),
            spare: Vec::new(),
            done: Some(result),
        }
    }

    /// Whether the operation has ended.
    pub fn finished(&self) -> (r: bool)
        ensures
            r == self@.finished(),
    {
        self.done.is_some()
    }

    /// How many tries have failed.
    pub fn attempt(&self) -> (n: u8)
        ensures
            n == self@.attempt,
    {
        self.attempt
    }

    /// Why the last failed try failed.
    pub fn last_failure(&self) -> (e: Option<LibBBError>)
        ensures
            e == self@.last_failure,
    {
        self.last_failure
    }

    fn kind(&self) -> (k: Kind)
        requires
            self@.done is None,
        ensures
            match k {
                Kind::Ready => self@.plan[self@.pc as int] is Ready,
                Kind::Send => self@.plan[self@.pc as int] is Send,
                Kind::Receive(max) => self@.plan[self@.pc as int] == StepView::Receive(
                    max as nat,
                ),
                Kind::Reply(max, put) => self@.plan[self@.pc as int] == StepView::Reply(
                    max as nat,
                    put,
                ),
                Kind::Perform(request) => self@.plan[self@.pc as int] == StepView::Perform(
                    request,
                ),
                Kind::DetachDriver => self@.plan[self@.pc as int] is DetachDriver,
                Kind::CheckConfiguration => self@.plan[self@.pc as int] is CheckConfiguration,
                Kind::LoadFilesystem => self@.plan[self@.pc as int] is LoadFilesystem,
            },
    {
        proof {
            use_type_invariant(self);
        }
        match &self.plan[self.pc] {
            Step::Ready => Kind::Ready,
            Step::Send(_) => Kind::Send,
            Step::Receive(max) => Kind::Receive(*max),
            Step::Reply(max, put) => Kind::Reply(*max, *put),
            Step::Perform(request) => Kind::Perform(*request),
            Step::DetachDriver => Kind::DetachDriver,
            Step::CheckConfiguration => Kind::CheckConfiguration,
            Step::LoadFilesystem => Kind::LoadFilesystem,
        }
    }

    /// The action to perform next, or `None` once the operation has ended.
    pub fn pending(&self) -> (action: Option<Action>)
        ensures
            match action {
                Some(a) => self@.pending() == Some(a@),
                None => self@.pending() is None,
            },
    {
        proof {
            use_type_invariant(self);
        }
        if self.done.is_some() {
            return None;
        }
        let action = match &self.plan[self.pc] {
            Step::Ready => Action::Receive(4),
            Step::Send(bytes) => {
                Action::Send(copy_bytes(bytes.as_slice()))
            },
            Step::Receive(max) => Action::Receive(*max),
            Step::Reply(_, _) => match self.phase {
                Phase::Body => {
                    Action::Receive(packet_size(self.expected, self.buf.len()))
                },
                Phase::Ack => {
                    let mut ack: Vec<u8> = Vec::new();
                    ack.push(ACK);
                    assert(ack@ =~= seq![ACK]);
                    Action::Send(ack)
                },
                _ => Action::Receive(4),
            },
            Step::Perform(request) => Action::Ask(*request),
            Step::DetachDriver => match self.phase {
                Phase::Detach => Action::Ask(Request::DetachKernelDriver),
                _ => Action::Ask(Request::KernelDriverActive),
            },
            Step::CheckConfiguration => Action::Ask(Request::ActiveConfiguration),
            Step::LoadFilesystem => Action::Ask(Request::LoadFilesystem),
        };
        Some(action)
    }

    /// How the operation ended and what it hands back, or `None` while it
    /// is still running.
    pub fn outcome(&self) -> (r: Option<Result<Reply, LibBBError>>)
        ensures
            outcome_view(r) == self@.outcome(),
    {
        match self.done {
            None => None,
            Some(Err(e)) => Some(Err(e)),
            Some(Ok(())) => {
                let reply = match self.shape {
                    Shape::Nothing => Reply::Nothing,
                    Shape::Number => Reply::Number(self.number),
                    Shape::Flag => Reply::Flag(self.flag),
                    Shape::Bytes => {
                        Reply::Bytes(copy_bytes(self.block.as_slice()))
                    },
                    Shape::BlockSpare => {
                        Reply::BlockSpare(
                            copy_bytes(self.block.as_slice()),
                            copy_bytes(self.spare.as_slice()),
                        )
                    },
                };
                Some(Ok(reply))
            },
        }
    }

    fn finish(self, result: Result<(), LibBBError>) -> (next: Operation)
        ensures
            next@ == self@.finish(result),
    {
        proof {
            use_type_invariant(&self);
        }
        Operation { phase: Phase::Begin, expected: 0, buf: Vec::new(), done: Some(result), ..self }
    }

    fn advance(self) -> (next: Operation)
        requires
            self@.done is None,
        ensures
            next@ == self@.advance(),
    {
        proof {
            use_type_invariant(&self);
            assert(self@.wf());
            assert(self.pc < self.plan.len());
        }
        let done = if self.pc + 1 >= self.plan.len() {
            Some(Ok(()))
        } else {
            None
        };
        Operation {
            pc: self.pc + 1,
            phase: Phase::Begin,
            expected: 0,
            buf: Vec::new(),
            done,
            ..self
        }
    }

    fn fail(self, e: LibBBError) -> (next: Operation)
        requires
            self@.done is None,
        ensures
            next@ == self@.fail(e),
    {
        proof {
            use_type_invariant(&self);
        }
        match self.exhausted {
            None => self.finish(Err(e)),
            Some(last) => if self.attempt + 1 >= ATTEMPTS {
                let attempt = self.attempt + 1;
                let ended = self.finish(Err(last));
                proof {
                    use_type_invariant(&ended);
                }
                Operation { attempt, last_failure: Some(e), ..ended }
            } else {
                Operation {
                    pc: 0,
                    phase: Phase::Begin,
                    expected: 0,
                    buf: Vec::new(),
                    attempt: self.attempt + 1,
                    last_failure: Some(e),
                    number: 0,
                    flag: false,
                    block: Vec::new(),
                    spare: Vec::new(),
                    ..self
                }
            },
        }
    }

    fn stay(self, phase: Phase, expected: usize, buf: Vec<u8>) -> (next: Operation)
        requires
            self@.done is None,
            self@.stay(phase, expected as nat, buf@).wf(),
        ensures
            next@ == self@.stay(phase, expected as nat, buf@),
    {
        Operation { phase, expected, buf, ..self }
    }

    fn put_to_use(self, put: Use, max: usize, data: Vec<u8>) -> (next: Operation)
        requires
            self@.done is None,
            !(turn_use(put, max as nat, data@) is OutOfStep),
        ensures
            next@ == self@.after(turn_use(put, max as nat, data@)),
    {
        proof {
            use_type_invariant(&self);
        }
        match put {
            Use::Discard => self.advance(),
            Use::Status(fault) => {
                let ret = command_ret(data.as_slice());
                if ret < 0 {
                    self.fail(fault.raise(ret))
                } else {
                    self.advance()
                }
            },
            Use::Value(check) => {
                let ret = command_ret(data.as_slice());
                let value = command_value(data.as_slice());
                match check {
                    Some(fault) => if ret < 0 {
                        self.fail(fault.raise(ret))
                    } else {
                        (Operation { number: value, ..self }).advance()
                    },
                    None => (Operation { number: value, ..self }).advance(),
                }
            },
            Use::Verdict => {
                let ret = command_ret(data.as_slice());
                (Operation { flag: ret == 0, ..self }).advance()
            },
            Use::Block => self.gather(data),
            Use::Chunk => if data.len() != max {
                self.fail(LibBBError::USB(UsbError::InvalidParam))
            } else {
                self.gather(data)
            },
            Use::Spare => if data.len() != max {
                self.fail(LibBBError::USB(UsbError::InvalidParam))
            } else {
                (Operation { spare: data, ..self }).advance()
            },
        }
    }

    fn gather(self, data: Vec<u8>) -> (next: Operation)
        requires
            self@.done is None,
        ensures
            next@ == self@.gain(Gain::Block(data@)).advance(),
    {
        proof {
            use_type_invariant(&self);
        }
        let mut block = self.block;
        let mut data = data;
        block.append(&mut data);
        (Operation { block, ..self }).advance()
    }

    fn feed_header(self, max: usize, event: Event) -> (next: Operation)
        requires
            self@.done is None,
            self@.plan[self@.pc as int] is Reply,
            self@.plan[self@.pc as int]->Reply_0 == max,
        ensures
            next@ == self@.after(turn_header(max as nat, event@)),
    {
        proof {
            use_type_invariant(&self);
        }
        match event {
            Event::Received(bytes) => {
                if is_ready_signal(bytes.as_slice()) {
                    self.stay(Phase::Begin, 0, Vec::new())
                } else {
                    match parse_length_header(bytes.as_slice()) {
                        None => self.fail(LibBBError::USB(UsbError::Io)),
                        Some(n) => if n == 0 || n > max {
                            self.fail(LibBBError::USB(UsbError::InvalidParam))
                        } else {
                            self.stay(Phase::Body, n, Vec::new())
                        },
                    }
                }
            },
            other => {
                let e = other.failure();
                self.fail(e)
            },
        }
    }

    fn feed_body(self, event: Event) -> (next: Operation)
        requires
            self@.done is None,
            self@.plan[self@.pc as int] is Reply,
            self@.phase == Phase::Body,
        ensures
            next@ == self@.after(turn_body(self@.expected, self@.buf, event@)),
    {
        proof {
            use_type_invariant(&self);
        }
        match event {
            Event::Received(bytes) => {
                if bytes.len() > packet_size(self.expected, self.buf.len()) {
                    self.fail(LibBBError::USB(UsbError::Overflow))
                } else {
                    let full = bytes.len() == PACKET_SIZE;
                    let mut bytes = bytes;
                    let mut buf = self.buf;
                    buf.append(&mut bytes);
                    if full {
                        Operation { phase: Phase::Body, buf, ..self }
                    } else {
                        Operation { phase: Phase::Ack, buf, ..self }
                    }
                }
            },
            other => {
                let e = other.failure();
                self.fail(e)
            },
        }
    }

    fn feed_ack(self, put: Use, max: usize, event: Event) -> (next: Operation)
        requires
            self@.done is None,
            self@.plan[self@.pc as int] is Reply,
            self@.phase == Phase::Ack,
            !(turn_ack(put, max as nat, self@.expected, self@.buf, event@) is OutOfStep),
        ensures
            next@ == self@.after(turn_ack(put, max as nat, self@.expected, self@.buf, event@)),
    {
        proof {
            use_type_invariant(&self);
        }
        match event {
            Event::Sent(_) => match decode_piecemeal_data(self.buf.as_slice(), self.expected) {
                Ok(data) => self.put_to_use(put, max, data),
                Err(e) => self.fail(e),
            },
            other => {
                let e = other.failure();
                self.fail(e)
            },
        }
    }

    fn feed_receive(self, max: usize, event: Event) -> (next: Operation)
        requires
            self@.done is None,
        ensures
            next@ == self@.after(turn_receive(max as nat, event@)),
    {
        match event {
            Event::Received(bytes) => {
                if bytes.len() > max {
                    self.fail(LibBBError::USB(UsbError::Overflow))
                } else {
                    self.put_to_use(Use::Block, max, bytes)
                }
            },
            other => {
                let e = other.failure();
                self.fail(e)
            },
        }
    }

    fn feed_ready(self, event: Event) -> (next: Operation)
        requires
            self@.done is None,
        ensures
            next@ == self@.after(turn_ready(event@)),
    {
        proof {
            use_type_invariant(&self);
        }
        match event {
            Event::Received(bytes) => {
                if bytes.len() != 4 {
                    self.fail(LibBBError::USB(UsbError::Io))
                } else if is_ready_signal(bytes.as_slice()) {
                    self.advance()
                } else {
                    self.stay(Phase::Begin, 0, Vec::new())
                }
            },
            other => {
                let e = other.failure();
                self.fail(e)
            },
        }
    }

    fn feed_simple(self, kind: Kind, event: Event) -> (next: Operation)
        requires
            self@.done is None,
            kind is DetachDriver ==> self@.plan[self@.pc as int] is DetachDriver,
            !(kind is Reply) && !(kind is Ready) && !(kind is Receive),
        ensures
            next@ == self@.after(
                match kind {
                    Kind::Send => turn_send(event@),
                    Kind::DetachDriver => if self@.phase == Phase::Detach {
                        turn_perform(event@)
                    } else {
                        turn_driver(event@)
                    },
                    Kind::CheckConfiguration => turn_configuration(event@),
                    Kind::LoadFilesystem => turn_filesystem(event@),
                    _ => turn_perform(event@),
                },
            ),
    {
        proof {
            use_type_invariant(&self);
        }
        let detaching = self.phase == Phase::Detach;
        match (kind, event) {
            (Kind::Send, Event::Sent(_)) => self.advance(),
            (Kind::Perform(_), Event::Done) => self.advance(),
            (Kind::DetachDriver, Event::Done) if detaching => self.advance(),
            (Kind::DetachDriver, Event::Flag(true)) if !detaching => self.stay(
                Phase::Detach,
                0,
                Vec::new(),
            ),
            (Kind::DetachDriver, Event::Flag(false)) if !detaching => self.advance(),
            (Kind::CheckConfiguration, Event::Number(n)) if n == RDB_CONF_DESCRIPTOR
                => self.advance(),
            (Kind::CheckConfiguration, _) => self.fail(LibBBError::USB(UsbError::BadDescriptor)),
            (Kind::LoadFilesystem, Event::Flag(true)) => self.advance(),
            (Kind::LoadFilesystem, Event::Flag(false)) => self.fail(LibBBError::FS),
            (_, other) => {
                let e = other.failure();
                self.fail(e)
            },
        }
    }

    /// Whether an answer can be fed. It cannot where it shows host and
    /// device to be out of step: where the acknowledged body does not hold
    /// the bytes that were declared for it, or the reply has no room for the
    /// status word that it must bring. Nothing that follows on such a link
    /// can be relied on.
    pub fn takes(&self, event: &Event) -> (r: bool)
        ensures
            r == self@.takes(event@),
    {
        proof {
            use_type_invariant(self);
        }
        if self.done.is_some() {
            return true;
        }
        match (self.kind(), self.phase, event) {
            (Kind::Reply(_, put), Phase::Ack, Event::Sent(_)) => {
                if !piecemeal_in_step(self.buf.as_slice(), self.expected) {
                    false
                } else {
                    proof {
                        crate::player_comms::lemma_piecemeal_groups_len(
                            self.buf@,
                            Seq::empty(),
                            self.expected as nat,
                            PIECEMEAL_CHUNK_RECV,
                        );
                    }
                    match put {
                        Use::Status(_) | Use::Value(_) | Use::Verdict => {
                            match decode_piecemeal_data(self.buf.as_slice(), self.expected) {
                                Ok(data) => data.len() >= STATUS_END,
                                Err(_) => true,
                            }
                        },
                        _ => true,
                    }
                }
            },
            _ => true,
        }
    }

    /// Takes the answer to the pending action and moves on.
    pub fn feed(self, event: Event) -> (next: Operation)
        requires
            self@.takes(event@),
        ensures
            next@ == self@.fed(event@),
            next@.wf(),
    {
        proof {
            use_type_invariant(&self);
        }
        if self.done.is_some() {
            return self;
        }
        let kind = self.kind();
        let phase = self.phase;
        let next = match kind {
            Kind::Ready => self.feed_ready(event),
            Kind::Receive(max) => self.feed_receive(max, event),
            Kind::Reply(max, put) => match phase {
                Phase::Body => self.feed_body(event),
                Phase::Ack => self.feed_ack(put, max, event),
                _ => self.feed_header(max, event),
            },
            _ => self.feed_simple(kind, event),
        };
        proof {
            use_type_invariant(&next);
        }
        next
    }
}

/// Adds a step to the end of a plan.
pub fn push_step(plan: &mut Vec<Step>, step: Step)
    ensures
        plan_view(final(plan)@) == plan_view(old(plan)@).push(step@),
{
    plan.push(step);
    assert(plan_view(plan@) =~= plan_view(old(plan)@).push(step@));
}

/// The plan without steps.
pub fn empty_plan() -> (plan: Vec<Step>)
    ensures
        plan_view(plan@) == Seq::<StepView>::empty(),
{
    let plan: Vec<Step> = Vec::new();
    assert(plan_view(plan@) =~= Seq::<StepView>::empty());
    plan
}


/// An answer leaves an operation well formed, and leaves its plan, the
/// form of its result and its way with failures as they were.
pub proof fn lemma_fed_keeps(op: OperationView, event: EventView)
    requires
        op.wf(),
    ensures
        op.fed(event).wf(),
        op.fed(event).plan == op.plan,
        op.fed(event).shape == op.shape,
        op.fed(event).exhausted == op.exhausted,
        op.fed(event).attempt >= op.attempt,
{
    if op.done is None {
        let t = turn(op.plan[op.pc as int], op.phase, op.expected, op.buf, event);
        match t {
            Turn::Next(gain) => {
                assert(op.gain(gain).advance().wf());
            },
            _ => {},
        }
    }
}

/// The same of a run of answers.
pub proof fn lemma_run_keeps(op: OperationView, events: Seq<EventView>)
    requires
        op.wf(),
    ensures
        op.run(events).wf(),
        op.run(events).plan == op.plan,
        op.run(events).shape == op.shape,
        op.run(events).exhausted == op.exhausted,
        op.run(events).attempt >= op.attempt,
    decreases events.len(),
{
    if events.len() > 0 {
        lemma_fed_keeps(op, events[0]);
        lemma_run_keeps(op.fed(events[0]), events.skip(1));
    }
}

/// An operation that has ended asks for nothing and takes no notice of
/// what it is fed.
pub proof fn lemma_ended_is_silent(op: OperationView, events: Seq<EventView>)
    requires
        op.finished(),
    ensures
        op.pending() is None,
        op.run(events) == op,
        op.asked(events) == Seq::<ActionView>::empty(),
    decreases events.len(),
{
    if events.len() > 0 {
        lemma_ended_is_silent(op, events.skip(1));
    }
}

/// The poll for the ready signal takes the four bytes of the signal and
/// nothing else. Any other four bytes leave the operation exactly as it
/// was, so that it asks for four bytes again; any other number of bytes is
/// a failure.
pub proof fn lemma_ready_poll(op: OperationView, bytes: Seq<u8>)
    requires
        op.wf(),
        !op.finished(),
        op.plan[op.pc as int] is Ready,
    ensures
        op.pending() == Some(ActionView::Receive(4)),
        bytes == ready_signal() ==> op.fed(EventView::Received(bytes)) == op.advance(),
        bytes.len() == 4 && bytes != ready_signal() ==> op.fed(EventView::Received(bytes)) == op,
        bytes.len() != 4 ==> op.fed(EventView::Received(bytes)) == op.fail(
            LibBBError::USB(UsbError::Io),
        ),
        op.fed(EventView::Received(bytes)) == op.advance() <==> bytes == ready_signal(),
{
    assert(ready_signal().len() == 4);
    assert(op.phase == Phase::Begin);
}

/// A reply whose header declares no bytes, or more than were asked for, is
/// refused with `InvalidParam` on the spot: the operation does not go on
/// to read a body.
pub proof fn lemma_reply_length_refused(op: OperationView, header: Seq<u8>)
    requires
        op.wf(),
        !op.finished(),
        op.plan[op.pc as int] is Reply,
        op.phase == Phase::Begin,
        is_length_header(header),
        declared_length(header) == 0 || declared_length(header) > op.plan[op.pc as int]->Reply_0,
    ensures
        op.pending() == Some(ActionView::Receive(4)),
        op.fed(EventView::Received(header)) == op.fail(
            LibBBError::USB(UsbError::InvalidParam),
        ),
        op.fed(EventView::Received(header)).phase == Phase::Begin,
        op.exhausted is None ==> op.fed(EventView::Received(header)).outcome() == Some(
            Err::<ReplyView, LibBBError>(LibBBError::USB(UsbError::InvalidParam)),
        ) && op.fed(EventView::Received(header)).pending() is None,
{
    assert(header != ready_signal()) by {
        assert(ready_signal()[0] != header[0]);
    }
}

/// A failed step of an operation that tries its plan again: with tries
/// left, the operation stands at its first step once more, with nothing
/// gathered and one more failed try counted; with none left, it has ended
/// with the error that was set for that.
pub proof fn lemma_failed_try(op: OperationView, e: LibBBError)
    requires
        op.wf(),
        !op.finished(),
        op.exhausted is Some,
    ensures
        op.fail(e).attempt == op.attempt + 1,
        op.attempt + 1 < ATTEMPTS ==> {
            &&& !op.fail(e).finished()
            &&& op.fail(e).pc == 0
            &&& op.fail(e).phase == Phase::Begin
            &&& op.fail(e).block == Seq::<u8>::empty()
            &&& op.fail(e).spare == Seq::<u8>::empty()
        },
        op.attempt + 1 == ATTEMPTS ==> op.fail(e).outcome() == Some(
            Err::<ReplyView, LibBBError>(op.exhausted->0),
        ),
{
}

proof fn lemma_retried_outcome(op: OperationView, event: EventView)
    requires
        op.wf(),
        op.exhausted is Some,
        op.done matches Some(Err(e)) ==> e == op.exhausted->0 && op.attempt == ATTEMPTS,
        op.done is Some || op.attempt < ATTEMPTS,
        op.done matches Some(Ok(_)) ==> op.attempt < ATTEMPTS,
    ensures
        op.fed(event).done matches Some(Err(e)) ==> e == op.exhausted->0 && op.fed(
            event,
        ).attempt == ATTEMPTS,
        op.fed(event).done is Some || op.fed(event).attempt < ATTEMPTS,
        op.fed(event).done matches Some(Ok(_)) ==> op.fed(event).attempt < ATTEMPTS,
{
}

/// An operation that tries its plan again ends in success or with the
/// error set for running out of tries, and with nothing else. It ends with
/// that error exactly when `ATTEMPTS` tries have failed.
pub proof fn lemma_retried_run(
    plan: Seq<StepView>,
    shape: Shape,
    last: LibBBError,
    events: Seq<EventView>,
)
    ensures
        ({
            let end = OperationView::start(plan, shape, Some(last)).run(events);
            &&& end.done matches Some(Err(e)) ==> e == last
            &&& (end.done == Some(Err::<(), LibBBError>(last))) == (end.attempt == ATTEMPTS)
        }),
{
    let op = OperationView::start(plan, shape, Some(last));
    lemma_retried_run_from(op, events);
}

proof fn lemma_retried_run_from(op: OperationView, events: Seq<EventView>)
    requires
        op.wf(),
        op.exhausted is Some,
        op.done matches Some(Err(e)) ==> e == op.exhausted->0 && op.attempt == ATTEMPTS,
        op.done is Some || op.attempt < ATTEMPTS,
        op.done matches Some(Ok(_)) ==> op.attempt < ATTEMPTS,
    ensures
        op.run(events).done matches Some(Err(e)) ==> e == op.exhausted->0,
        op.run(events).done == Some(Err::<(), LibBBError>(op.exhausted->0)) ==> op.run(
            events,
        ).attempt == ATTEMPTS,
        op.run(events).attempt == ATTEMPTS ==> op.run(events).done == Some(
            Err::<(), LibBBError>(op.exhausted->0),
        ),
    decreases events.len(),
{
    if events.len() > 0 {
        lemma_fed_keeps(op, events[0]);
        lemma_retried_outcome(op, events[0]);
        lemma_retried_run_from(op.fed(events[0]), events.skip(1));
    }
}

/// The answers with which a device that keeps to the framing hands a
/// payload over: the length header, the grouped payload in packets, and
/// the acknowledgment going out.
pub open spec fn device_reply(payload: Seq<u8>) -> Seq<EventView> {
    seq![EventView::Received(length_header(payload.len()))] + body_packets(
        piecemeal_encoding(payload, PIECEMEAL_CHUNK_RECV),
    ).map_values(|packet: Seq<u8>| EventView::Received(packet)) + seq![EventView::Sent(1)]
}

/// A run of one answer is that answer fed.
pub proof fn lemma_run_one(op: OperationView, event: EventView)
    ensures
        op.run(seq![event]) == op.fed(event),
        op.takes_all(seq![event]) == op.takes(event),
{
    let events = seq![event];
    assert(events.skip(1) =~= Seq::<EventView>::empty());
    assert(op.fed(event).run(events.skip(1)) == op.fed(event));
    assert(op.fed(event).takes_all(events.skip(1)));
}

/// A run of answers can be taken in two parts.
pub proof fn lemma_run_split(op: OperationView, first: Seq<EventView>, second: Seq<EventView>)
    ensures
        op.run(first + second) == op.run(first).run(second),
        op.takes_all(first + second) == (op.takes_all(first) && op.run(first).takes_all(second)),
    decreases first.len(),
{
    if first.len() == 0 {
        assert(first + second =~= second);
    } else {
        assert((first + second)[0] == first[0]);
        assert((first + second).skip(1) =~= first.skip(1) + second);
        lemma_run_split(op.fed(first[0]), first.skip(1), second);
    }
}

proof fn lemma_body_received(op: OperationView, rest: Seq<u8>, payload: Seq<u8>)
    requires
        op.wf(),
        !op.finished(),
        op.plan[op.pc as int] is Reply,
        op.phase == Phase::Body,
        op.expected == payload.len(),
        op.buf + rest == piecemeal_encoding(payload, PIECEMEAL_CHUNK_RECV),
    ensures
        op.run(body_packets(rest).map_values(|packet: Seq<u8>| EventView::Received(packet)))
            == op.stay(
            Phase::Ack,
            op.expected,
            piecemeal_encoding(payload, PIECEMEAL_CHUNK_RECV),
        ),
        op.takes_all(
            body_packets(rest).map_values(|packet: Seq<u8>| EventView::Received(packet)),
        ),
    decreases rest.len(),
{
    let whole = piecemeal_encoding(payload, PIECEMEAL_CHUNK_RECV);
    let wrap = |packet: Seq<u8>| EventView::Received(packet);
    let events = body_packets(rest).map_values(wrap);
    lemma_piecemeal_encoding_len(payload, PIECEMEAL_CHUNK_RECV);
    assert(whole.len() == op.buf.len() + rest.len());
    assert(whole.len() < reply_room(op.expected));
    if rest.len() < PACKET_SIZE {
        assert(events =~= seq![EventView::Received(rest)]);
        lemma_run_one(op, EventView::Received(rest));
        assert(op.buf + rest =~= whole);
    } else {
        let packet = rest.take(PACKET_SIZE as int);
        let after = rest.skip(PACKET_SIZE as int);
        assert(events =~= seq![EventView::Received(packet)] + body_packets(after).map_values(
            wrap,
        ));
        let next = op.fed(EventView::Received(packet));
        assert(next == op.stay(Phase::Body, op.expected, op.buf + packet));
        assert(op.buf + packet + after =~= op.buf + rest);
        lemma_body_received(next, after, payload);
        lemma_run_split(
            op,
            seq![EventView::Received(packet)],
            body_packets(after).map_values(wrap),
        );
        lemma_run_one(op, EventView::Received(packet));
    }
}

/// What a device that keeps to the framing sends is what arrives: an
/// operation that waits for a reply can be fed every answer of such a
/// device for a payload that is not empty, not longer than the most it
/// takes, and long enough for what it is to bring; and it then stands as if
/// the payload had been handed to it.
pub proof fn lemma_reply_received(op: OperationView, payload: Seq<u8>)
    requires
        op.wf(),
        !op.finished(),
        op.plan[op.pc as int] is Reply,
        op.phase == Phase::Begin,
        0 < payload.len() <= op.plan[op.pc as int]->Reply_0,
        payload.len() <= 0xFF_FFFF,
        !(turn_use(op.plan[op.pc as int]->Reply_1, op.plan[op.pc as int]->Reply_0, payload)
            is OutOfStep),
    ensures
        op.run(device_reply(payload)) == op.after(
            turn_use(op.plan[op.pc as int]->Reply_1, op.plan[op.pc as int]->Reply_0, payload),
        ),
        op.takes_all(device_reply(payload)),
{
    let n = payload.len();
    let header = length_header(n);
    let whole = piecemeal_encoding(payload, PIECEMEAL_CHUNK_RECV);
    let wrap = |packet: Seq<u8>| EventView::Received(packet);
    let packets = body_packets(whole).map_values(wrap);
    assert(header != ready_signal()) by {
        assert(ready_signal()[0] != header[0]);
    }
    assert(declared_length(header) == n);
    let reading = op.fed(EventView::Received(header));
    assert(reading == op.stay(Phase::Body, n, Seq::empty()));
    assert(reading.buf + whole =~= whole);
    lemma_body_received(reading, whole, payload);
    let read = reading.run(packets);
    assert(read == op.stay(Phase::Ack, n, whole));
    lemma_piecemeal_round_trip(payload, PIECEMEAL_CHUNK_RECV);
    assert(piecemeal_decoding(whole, n) == Reading::Payload(payload));
    let ended = read.fed(EventView::Sent(1));
    assert(ended == op.after(
        turn_use(op.plan[op.pc as int]->Reply_1, op.plan[op.pc as int]->Reply_0, payload),
    ));
    let first = seq![EventView::Received(header)];
    let last = seq![EventView::Sent(1)];
    lemma_run_one(op, EventView::Received(header));
    lemma_run_one(read, EventView::Sent(1));
    lemma_run_split(op, first, packets);
    lemma_run_split(op, first + packets, last);
    assert(device_reply(payload) =~= first + packets + last);
}

} // verus!
