//! Host-side driver logic for a handheld-console accessory that exposes raw
//! NAND flash over a USB bulk link.
//!
//! The crate decides; it never touches the bus. Every operation is a state
//! machine that names the next transfer to perform and is fed what came back.

pub mod commands;
pub mod constants;
pub mod error;
pub mod operation;
pub mod player_comms;
pub mod usb;

use crate::commands::{
    block_read, block_write, encode_time, exchange_plan, set_time_plan, time_bytes, write_block_plan,
    Command, Timestamp,
};
use crate::constants::{Geometry, BAD_BLOCK_MARKER, GOOD_BLOCK};
use crate::error::LibBBError;
use crate::operation::{
    empty_plan, outcome_view, plan_view, push_step, Fault, Operation, OperationView, Reply,
    ReplyView, Shape, Step, StepView, Use,
};
use crate::player_comms::{copy_bytes, push_command, push_reply};
use crate::usb::{close_plan, open_plan, Action, ActionView, Event, EventView, Request};
use vstd::prelude::*;

verus! {

/// What the operation that a session is running is for.
#[derive(Clone, Copy, Debug, PartialEq, Eq, Structural)]
pub enum Purpose {
    /// Opening the device.
    Open,
    /// Initialising the session.
    Init,
    /// Closing the session.
    Close,
    /// A single command.
    Command,
    /// Asking for the number of blocks before a dump.
    DumpCount,
    /// Reading one block of a dump.
    DumpBlock,
}

/// A call that a session hands on to the keeper of the file table.
#[derive(Clone, Copy, Debug, PartialEq, Eq)]
pub enum FsRequest<'a> {
    ListFileBlocks(&'a str),
    ListFiles,
    DumpCurrentFS,
    ReadFile(&'a str),
    WriteFile(&'a [u8], &'a str),
    DeleteFile(&'a str),
    GetStats,
}

/// Where the keeper of the file table stands on the device: the number of
/// the table it holds, the table's block, and that block's spare area. The
/// session carries it and makes nothing of it.
#[derive(Debug)]
pub struct FsCursor {
    pub index: u32,
    pub block: Option<Vec<u8>>,
    pub spare: Vec<u8>,
}

/// A cursor with its bytes as sequences.
pub struct FsCursorView {
    pub index: u32,
    pub block: Option<Seq<u8>>,
    pub spare: Seq<u8>,
}

impl View for FsCursor {
    type V = FsCursorView;

    open spec fn view(&self) -> FsCursorView {
        FsCursorView {
            index: self.index,
            block: match self.block {
                Some(b) => Some(b@),
                None => None,
            },
            spare: self.spare@,
        }
    }
}

impl FsCursorView {
    /// The cursor of a session that has read no table yet.
    pub open spec fn blank() -> FsCursorView {
        FsCursorView { index: 0, block: None, spare: Seq::empty() }
    }
}

/// The plan that initialises a session: set the sequence number to one,
/// ask for the number of blocks, have the file table read, have the device
/// start its filesystem, have the scratch file deleted.
pub open spec fn init_plan() -> Seq<StepView> {
    exchange_plan(Command::SetSeqNo.spec_opcode(), 1, Use::Discard) + exchange_plan(
        Command::GetNumBlocks.spec_opcode(),
        0,
        Use::Value(None),
    ) + seq![StepView::LoadFilesystem] + exchange_plan(
        Command::InitFS.spec_opcode(),
        0,
        Use::Status(Fault::InitFS),
    ) + seq![StepView::Perform(Request::DeleteScratchFile)]
}

/// The state of a session.
pub struct SessionView {
    /// The flash geometry of the device.
    pub geometry: Geometry,
    /// Whether kernel drivers can be detached and attached here.
    pub detach: bool,
    /// Whether the device has been opened.
    pub opened: bool,
    /// Whether the session is initialised.
    pub initialised: bool,
    /// The operation in flight, if any.
    pub running: Option<OperationView>,
    /// What it is for.
    pub purpose: Purpose,
    /// Dump: the next block to read.
    pub next: u32,
    /// Dump: the number of blocks.
    pub total: u32,
    /// Dump: the blocks read so far.
    pub nand: Seq<u8>,
    /// Dump: their spare areas.
    pub spare: Seq<u8>,
    /// How the last operation ended.
    pub outcome: Option<Result<ReplyView, LibBBError>>,
    /// Where the keeper of the file table stands.
    pub cursor: FsCursorView,
}

impl SessionView {
    /// A session for a device that has yet to be opened: the opening is
    /// in flight.
    pub open spec fn opening(geometry: Geometry, detach: bool) -> SessionView {
        SessionView {
            geometry,
            detach,
            opened: false,
            initialised: false,
            running: Some(OperationView::start(open_plan(detach), Shape::Nothing, None)),
            purpose: Purpose::Open,
            next: 0,
            total: 0,
            nand: Seq::empty(),
            spare: Seq::empty(),
            outcome: None,
            cursor: FsCursorView::blank(),
        }
    }

    /// What holds of every session that the library makes: the geometry
    /// fits together, and an operation in flight has not ended.
    pub open spec fn wf(self) -> bool {
        &&& self.geometry.wf()
        &&& self.running matches Some(op) ==> op.wf() && !op.finished()
    }

    /// The action that the session waits for, if any.
    pub open spec fn pending(self) -> Option<ActionView> {
        match self.running {
            Some(op) => op.pending(),
            None => None,
        }
    }

    /// Whether a command is taken: not before the session is initialised,
    /// and not while another operation is in flight.
    pub open spec fn admits(self) -> Result<(), LibBBError> {
        if !self.initialised {
            Err(LibBBError::NoConsole)
        } else if self.running is Some {
            Err(LibBBError::Busy)
        } else {
            Ok(())
        }
    }

    /// Whether initialisation is taken: not before the device is open, and
    /// not while another operation is in flight.
    pub open spec fn admits_init(self) -> Result<(), LibBBError> {
        if !self.opened {
            Err(LibBBError::NoConsole)
        } else if self.running is Some {
            Err(LibBBError::Busy)
        } else {
            Ok(())
        }
    }

    /// The read of one block by this session.
    pub open spec fn dump_read(self, block_num: u32) -> OperationView {
        block_read(self.geometry, block_num)
    }

    /// The session with nothing in flight and this as the last outcome.
    pub open spec fn conclude(self, outcome: Result<ReplyView, LibBBError>) -> SessionView {
        SessionView { running: None, outcome: Some(outcome), ..self }
    }

    /// The session after the operation in flight has ended in `outcome`.
    ///
    /// An opening that succeeds leaves the device open. An initialisation
    /// that succeeds leaves the session initialised, and one that fails
    /// changes nothing. A close leaves the session uninitialised however it
    /// ends: its failure is the outcome, to be reported and no more. A dump
    /// goes on to its next block, or ends with all of them; the failure of
    /// one block ends it.
    pub open spec fn settle(self, outcome: Result<ReplyView, LibBBError>) -> SessionView {
        match self.purpose {
            Purpose::Open => SessionView {
                opened: self.opened || outcome is Ok,
                ..self.conclude(outcome)
            },
            Purpose::Init => SessionView {
                initialised: self.initialised || outcome is Ok,
                ..self.conclude(outcome)
            },
            Purpose::Close => SessionView {
                initialised: false,
                ..self.conclude(outcome)
            },
            Purpose::Command => self.conclude(outcome),
            Purpose::DumpCount => match outcome {
                Ok(ReplyView::Number(n)) => if n == 0 {
                    self.conclude(Ok(ReplyView::BlockSpare(Seq::empty(), Seq::empty())))
                } else {
                    SessionView {
                        running: Some(self.dump_read(0)),
                        purpose: Purpose::DumpBlock,
                        next: 0,
                        total: n,
                        nand: Seq::empty(),
                        spare: Seq::empty(),
                        outcome: None,
                        ..self
                    }
                },
                Ok(other) => self.conclude(Ok(other)),
                Err(e) => self.conclude(Err(e)),
            },
            Purpose::DumpBlock => match outcome {
                Ok(ReplyView::BlockSpare(block, spare)) => if self.next + 1 >= self.total {
                    SessionView {
                        nand: Seq::empty(),
                        spare: Seq::empty(),
                        next: self.total,
                        ..self.conclude(
                            Ok(ReplyView::BlockSpare(self.nand + block, self.spare + spare)),
                        )
                    }
                } else {
                    SessionView {
                        running: Some(self.dump_read((self.next + 1) as u32)),
                        next: (self.next + 1) as u32,
                        nand: self.nand + block,
                        spare: self.spare + spare,
                        ..self
                    }
                },
                Ok(other) => self.conclude(Ok(other)),
                Err(e) => self.conclude(Err(e)),
            },
        }
    }

    /// The session with `op` put in flight: running where it has yet to
    /// end, settled at once where it has ended already.
    pub open spec fn install(self, op: OperationView) -> SessionView {
        match op.outcome() {
            None => SessionView { running: Some(op), ..self },
            Some(outcome) => self.settle(outcome),
        }
    }

    /// The session with `op` begun for `purpose`.
    pub open spec fn begin(self, op: OperationView, purpose: Purpose) -> SessionView {
        (SessionView { purpose, outcome: None, running: None, ..self }).install(op)
    }

    /// The session after a command was issued: begun where it is taken,
    /// unchanged where it is refused.
    pub open spec fn issue(self, op: OperationView, purpose: Purpose) -> SessionView {
        if self.admits() is Ok {
            self.begin(op, purpose)
        } else {
            self
        }
    }

    /// The initialisation of a session.
    pub open spec fn init_operation() -> OperationView {
        OperationView::start(init_plan(), Shape::Nothing, None)
    }

    /// The close of a session.
    pub open spec fn close_operation(self) -> OperationView {
        OperationView::start(close_plan(self.detach), Shape::Nothing, None)
    }

    /// The session after initialisation was asked for: begun where it is
    /// taken, unchanged where it is refused.
    pub open spec fn issue_init(self) -> SessionView {
        if self.admits_init() is Ok {
            self.begin(Self::init_operation(), Purpose::Init)
        } else {
            self
        }
    }

    /// The session after it was given up: where it is initialised, whatever
    /// is in flight is dropped and the close begun; where it is not, nothing
    /// changes.
    pub open spec fn discard(self) -> SessionView {
        if self.initialised {
            self.begin(self.close_operation(), Purpose::Close)
        } else {
            self
        }
    }

    /// What a call for the keeper of the file table comes to: the call
    /// itself where commands are taken, the refusal where they are not.
    pub open spec fn forward<'a>(self, request: FsRequest<'a>) -> Result<FsRequest<'a>, LibBBError> {
        match self.admits() {
            Ok(()) => Ok(request),
            Err(e) => Err(e),
        }
    }

    /// Whether an answer can be fed: it does not show host and device to
    /// be out of step. A session with nothing in flight takes every answer.
    pub open spec fn takes(self, event: EventView) -> bool {
        match self.running {
            None => true,
            Some(op) => op.takes(event),
        }
    }

    /// The session after the answer to its pending action. A session with
    /// nothing in flight takes no notice of events.
    pub open spec fn fed(self, event: EventView) -> SessionView {
        match self.running {
            None => self,
            Some(op) => (SessionView { running: None, ..self }).install(op.fed(event)),
        }
    }

    /// The session after a run of answers.
    pub open spec fn run(self, events: Seq<EventView>) -> SessionView
        decreases events.len(),
    {
        if events.len() == 0 {
            self
        } else {
            self.fed(events[0]).run(events.skip(1))
        }
    }
}

/// A session with one device.
///
/// A command puts an operation in flight; `pending` names the action to
/// perform for it, `feed` takes the answer, and `outcome` tells how it
/// ended once `pending` names nothing.
#[derive(Debug)]
pub struct BBPlayer {
    geometry: Geometry,
    detach: bool,
    opened: bool,
    is_initialised: bool,
    running: Option<Operation>,
    purpose: Purpose,
    next: u32,
    total: u32,
    nand: Vec<u8>,
    spare: Vec<u8>,
    outcome: Option<Result<Reply, LibBBError>>,
    cursor: FsCursor,
}

impl View for BBPlayer {
    type V = SessionView;

    closed spec fn view(&self) -> SessionView {
        SessionView {
            geometry: self.geometry,
            detach: self.detach,
            opened: self.opened,
            initialised: self.is_initialised,
            running: match self.running {
                Some(op) => Some(op@),
                None => None,
            },
            purpose: self.purpose,
            next: self.next,
            total: self.total,
            nand: self.nand@,
            spare: self.spare@,
            outcome: outcome_view(self.outcome),
            cursor: self.cursor@,
        }
    }
}

/// A copy of a reply.
fn copy_reply(reply: &Reply) -> (copy: Reply)
    ensures
        copy@ == reply@,
{
    match reply {
        Reply::Nothing => Reply::Nothing,
        Reply::Number(n) => Reply::Number(*n),
        Reply::Flag(b) => Reply::Flag(*b),
        Reply::Bytes(bytes) => Reply::Bytes(copy_bytes(bytes.as_slice())),
        Reply::BlockSpare(block, spare) => Reply::BlockSpare(
            copy_bytes(block.as_slice()),
            copy_bytes(spare.as_slice()),
        ),
    }
}

impl BBPlayer {
    #[verifier::type_invariant]
    spec fn inv(self) -> bool {
        self@.wf()
    }

    /// A session with a device that is about to be opened: the opening is
    /// in flight. `detach` tells whether kernel drivers can be detached on
    /// this platform.
    pub fn new(geometry: Geometry, detach: bool) -> (player: BBPlayer)
        requires
            geometry.wf(),
        ensures
            player@ == SessionView::opening(geometry, detach),
            player@.wf(),
    {
        BBPlayer {
            geometry,
            detach,
            opened: false,
            is_initialised: false,
            running: Some(Self::open_device(detach)),
            purpose: Purpose::Open,
            next: 0,
            total: 0,
            nand: Vec::new(),
            spare: Vec::new(),
            outcome: None,
            cursor: FsCursor { index: 0, block: None, spare: Vec::new() },
        }
    }

    /// The flash geometry that the session works with.
    pub fn geometry(&self) -> (g: Geometry)
        ensures
            g == self@.geometry,
            g.wf(),
    {
        proof {
            use_type_invariant(self);
        }
        self.geometry
    }

    /// Whether kernel drivers can be detached and attached here.
    pub fn detaches(&self) -> (r: bool)
        ensures
            r == self@.detach,
    {
        self.detach
    }

    /// Whether the device has been opened.
    pub fn opened(&self) -> (r: bool)
        ensures
            r == self@.opened,
    {
        self.opened
    }

    /// Whether the session is initialised.
    pub fn initialised(&self) -> (r: bool)
        ensures
            r == self@.initialised,
    {
        self.is_initialised
    }

    /// Whether an operation is in flight.
    pub fn busy(&self) -> (r: bool)
        ensures
            r == self@.running is Some,
    {
        self.running.is_some()
    }

    /// The action to perform next, or `None` where nothing is in flight.
    pub fn pending(&self) -> (action: Option<Action>)
        ensures
            match action {
                Some(a) => self@.pending() == Some(a@),
                None => self@.pending() is None,
            },
    {
        match &self.running {
            Some(op) => op.pending(),
            None => None,
        }
    }

    /// How the last operation ended and what it handed back; `None` while
    /// it is in flight, and before the first.
    pub fn outcome(&self) -> (r: Option<Result<Reply, LibBBError>>)
        ensures
            outcome_view(r) == self@.outcome,
    {
        match &self.outcome {
            None => None,
            Some(Err(e)) => Some(Err(*e)),
            Some(Ok(reply)) => Some(Ok(copy_reply(reply))),
        }
    }

    /// Of a dump in flight, how many blocks are read and how many there are.
    pub fn progress(&self) -> (r: (u32, u32))
        ensures
            r == (self@.next, self@.total),
    {
        (self.next, self.total)
    }

    fn conclude(&mut self, outcome: Result<Reply, LibBBError>)
        requires
            old(self)@.running is None,
        ensures
            final(self)@ == old(self)@.conclude(
                match outcome {
                    Ok(reply) => Ok(reply@),
                    Err(e) => Err(e),
                },
            ),
    {
        proof {
            use_type_invariant(&*self);
        }
        self.outcome = Some(outcome);
    }

    fn settle(&mut self, outcome: Result<Reply, LibBBError>)
        requires
            old(self)@.running is None,
        ensures
            final(self)@ == old(self)@.settle(
                match outcome {
                    Ok(reply) => Ok(reply@),
                    Err(e) => Err(e),
                },
            ),
    {
        proof {
            use_type_invariant(&*self);
        }
        match self.purpose {
            Purpose::Open => {
                self.opened = self.opened || outcome.is_ok();
                self.conclude(outcome);
            },
            Purpose::Init => {
                self.is_initialised = self.is_initialised || outcome.is_ok();
                self.conclude(outcome);
            },
            Purpose::Close => {
                self.is_initialised = false;
                self.conclude(outcome);
            },
            Purpose::Command => {
                self.conclude(outcome);
            },
            Purpose::DumpCount => match outcome {
                Ok(Reply::Number(n)) => {
                    if n == 0 {
                        self.conclude(Ok(Reply::BlockSpare(Vec::new(), Vec::new())));
                    } else {
                        let read = self.read_block_spare(0);
                        self.purpose = Purpose::DumpBlock;
                        self.next = 0;
                        self.total = n;
                        self.nand = Vec::new();
                        self.spare = Vec::new();
                        self.outcome = None;
                        self.running = Some(read);
                    }
                },
                Ok(other) => {
                    self.conclude(Ok(other));
                },
                Err(e) => {
                    self.conclude(Err(e));
                },
            },
            Purpose::DumpBlock => match outcome {
                Ok(Reply::BlockSpare(block, spare)) => {
                    let mut block = block;
                    let mut spare = spare;
                    let mut nand: Vec<u8> = Vec::new();
                    let mut all_spare: Vec<u8> = Vec::new();
                    core::mem::swap(&mut nand, &mut self.nand);
                    core::mem::swap(&mut all_spare, &mut self.spare);
                    nand.append(&mut block);
                    all_spare.append(&mut spare);
                    if self.total == 0 || self.next >= self.total - 1 {
                        self.next = self.total;
                        self.conclude(Ok(Reply::BlockSpare(nand, all_spare)));
                    } else {
                        let read = self.read_block_spare(self.next + 1);
                        self.next = self.next + 1;
                        self.nand = nand;
                        self.spare = all_spare;
                        self.running = Some(read);
                    }
                },
                Ok(other) => {
                    self.conclude(Ok(other));
                },
                Err(e) => {
                    self.conclude(Err(e));
                },
            },
        }
    }

    fn install(&mut self, op: Operation)
        requires
            old(self)@.running is None,
            op@.wf(),
        ensures
            final(self)@ == old(self)@.install(op@),
    {
        proof {
            use_type_invariant(&*self);
        }
        match op.outcome() {
            None => {
                self.running = Some(op);
            },
            Some(outcome) => {
                self.settle(outcome);
            },
        }
    }

    fn begin(&mut self, op: Operation, purpose: Purpose)
        requires
            op@.wf(),
        ensures
            final(self)@ == old(self)@.begin(op@, purpose),
    {
        proof {
            use_type_invariant(&*self);
        }
        self.running = None;
        self.purpose = purpose;
        self.outcome = None;
        self.install(op);
    }

    fn admits(&self) -> (r: Result<(), LibBBError>)
        ensures
            r == self@.admits(),
    {
        if !self.is_initialised {
            Err(LibBBError::NoConsole)
        } else if self.running.is_some() {
            Err(LibBBError::Busy)
        } else {
            Ok(())
        }
    }

    fn issue(&mut self, op: Operation, purpose: Purpose) -> (r: Result<(), LibBBError>)
        requires
            op@.wf(),
        ensures
            r == old(self)@.admits(),
            final(self)@ == old(self)@.issue(op@, purpose),
    {
        match self.admits() {
            Ok(()) => {
                self.begin(op, purpose);
                Ok(())
            },
            Err(e) => Err(e),
        }
    }

    /// Where the keeper of the file table stands.
    pub fn cursor(&self) -> (cursor: &FsCursor)
        ensures
            cursor@ == self@.cursor,
    {
        &self.cursor
    }

    /// Moves the keeper of the file table.
    pub fn set_cursor(&mut self, cursor: FsCursor)
        ensures
            final(self)@ == (SessionView { cursor: cursor@, ..old(self)@ }),
    {
        proof {
            use_type_invariant(&*self);
        }
        self.cursor = cursor;
    }

    fn forward<'a>(&self, request: FsRequest<'a>) -> (r: Result<FsRequest<'a>, LibBBError>)
        ensures
            r == self@.forward(request),
    {
        match self.admits() {
            Ok(()) => Ok(request),
            Err(e) => Err(e),
        }
    }

    /// Initialises the session: sets the sequence number to one, asks for
    /// the number of blocks, has the file table read, has the device start
    /// its filesystem and has the scratch file deleted. The session is
    /// initialised once all of that has succeeded, and not before.
    ///
    /// Refused with `NoConsole` before the device is open, and with `Busy`
    /// while another operation is in flight.
    #[allow(non_snake_case)]
    pub fn Init(&mut self) -> (r: Result<(), LibBBError>)
        ensures
            r == old(self)@.admits_init(),
            final(self)@ == old(self)@.issue_init(),
            final(self)@.wf(),
    {
        let refusal = if !self.opened {
            Err(LibBBError::NoConsole)
        } else if self.running.is_some() {
            Err(LibBBError::Busy)
        } else {
            Ok(())
        };
        if refusal.is_ok() {
            let mut plan = empty_plan();
            push_command(&mut plan, Command::SetSeqNo.opcode(), 1);
            push_reply(&mut plan, crate::constants::STATUS_END, Use::Discard);
            push_command(&mut plan, Command::GetNumBlocks.opcode(), 0);
            push_reply(&mut plan, crate::constants::STATUS_END, Use::Value(None));
            push_step(&mut plan, Step::LoadFilesystem);
            push_command(&mut plan, Command::InitFS.opcode(), 0);
            push_reply(&mut plan, crate::constants::STATUS_END, Use::Status(Fault::InitFS));
            push_step(&mut plan, Step::Perform(Request::DeleteScratchFile));
            assert(plan_view(plan@) =~= init_plan());
            self.begin(Operation::new(plan, Shape::Nothing, None), Purpose::Init);
        }
        proof {
            use_type_invariant(&*self);
        }
        refusal
    }

    /// Asks for the device's identity; the outcome is a number.
    #[allow(non_snake_case)]
    pub fn GetBBID(&mut self) -> (r: Result<(), LibBBError>)
        ensures
            r == old(self)@.admits(),
            final(self)@ == old(self)@.issue(
                OperationView::start(
                    exchange_plan(
                        Command::GetBBID.spec_opcode(),
                        0,
                        Use::Value(Some(Fault::GetBBID)),
                    ),
                    Shape::Number,
                    None,
                ),
                Purpose::Command,
            ),
    {
        let op = self.get_bbid();
        self.issue(op, Purpose::Command)
    }

    /// Sets the LED.
    #[allow(non_snake_case)]
    pub fn SetLED(&mut self, ledval: u32) -> (r: Result<(), LibBBError>)
        ensures
            r == old(self)@.admits(),
            final(self)@ == old(self)@.issue(
                OperationView::start(
                    exchange_plan(Command::SetLED.spec_opcode(), ledval, Use::Discard),
                    Shape::Nothing,
                    None,
                ),
                Purpose::Command,
            ),
    {
        let op = self.set_led(ledval);
        self.issue(op, Purpose::Command)
    }

    /// Sets the device's clock.
    #[allow(non_snake_case)]
    pub fn SetTime(&mut self, when: &Timestamp) -> (r: Result<(), LibBBError>)
        ensures
            r == old(self)@.admits(),
            final(self)@ == old(self)@.issue(
                OperationView::start(set_time_plan(time_bytes(*when)), Shape::Nothing, None),
                Purpose::Command,
            ),
    {
        let op = self.set_time(encode_time(when));
        self.issue(op, Purpose::Command)
    }

    /// Lists the blocks of a file.
    #[allow(non_snake_case)]
    pub fn ListFileBlocks<'a>(&self, filename: &'a str) -> (r: Result<FsRequest<'a>, LibBBError>)
        ensures
            r == self@.forward(FsRequest::ListFileBlocks(filename)),
    {
        self.forward(FsRequest::ListFileBlocks(filename))
    }

    /// Lists the files.
    #[allow(non_snake_case)]
    pub fn ListFiles(&self) -> (r: Result<FsRequest<'static>, LibBBError>)
        ensures
            r == self@.forward(FsRequest::ListFiles),
    {
        self.forward(FsRequest::ListFiles)
    }

    /// Dumps the current file table.
    #[allow(non_snake_case)]
    pub fn DumpCurrentFS(&self) -> (r: Result<FsRequest<'static>, LibBBError>)
        ensures
            r == self@.forward(FsRequest::DumpCurrentFS),
    {
        self.forward(FsRequest::DumpCurrentFS)
    }

    /// Reads every block of the device and its spare area, in order. The
    /// outcome holds the blocks one after the other, and the spare areas
    /// likewise.
    #[allow(non_snake_case)]
    pub fn DumpNAND(&mut self) -> (r: Result<(), LibBBError>)
        ensures
            r == old(self)@.admits(),
            final(self)@ == old(self)@.issue(
                OperationView::start(
                    exchange_plan(Command::GetNumBlocks.spec_opcode(), 0, Use::Value(None)),
                    Shape::Number,
                    None,
                ),
                Purpose::DumpCount,
            ),
    {
        let op = self.get_num_blocks();
        self.issue(op, Purpose::DumpCount)
    }

    /// Reads one block and its spare area.
    #[allow(non_snake_case)]
    pub fn ReadSingleBlock(&mut self, block_num: u32) -> (r: Result<(), LibBBError>)
        ensures
            r == old(self)@.admits(),
            final(self)@ == old(self)@.issue(
                old(self)@.dump_read(block_num),
                Purpose::Command,
            ),
    {
        let op = self.read_single_block(block_num);
        self.issue(op, Purpose::Command)
    }

    /// Writes one block and its spare area. A block that its spare area
    /// marks as bad is left alone: the write has succeeded at once, and
    /// nothing is sent. Where the write is refused, the spare area is not
    /// looked at.
    #[allow(non_snake_case)]
    pub fn WriteSingleBlock(&mut self, block: &[u8], spare: &[u8], block_num: u32) -> (r: Result<
        (),
        LibBBError,
    >)
        requires
            old(self)@.admits() is Ok ==> spare@.len() > BAD_BLOCK_MARKER,
        ensures
            r == old(self)@.admits(),
            final(self)@ == old(self)@.issue(
                block_write(old(self)@.geometry, block@, spare@, block_num),
                Purpose::Command,
            ),
    {
        match self.admits() {
            Ok(()) => {
                let op = self.write_single_block(block, spare, block_num);
                self.begin(op, Purpose::Command);
                Ok(())
            },
            Err(e) => Err(e),
        }
    }

    /// Reads a file.
    #[allow(non_snake_case)]
    pub fn ReadFile<'a>(&self, filename: &'a str) -> (r: Result<FsRequest<'a>, LibBBError>)
        ensures
            r == self@.forward(FsRequest::ReadFile(filename)),
    {
        self.forward(FsRequest::ReadFile(filename))
    }

    /// Writes a file.
    #[allow(non_snake_case)]
    pub fn WriteFile<'a>(&self, data: &'a [u8], filename: &'a str) -> (r: Result<
        FsRequest<'a>,
        LibBBError,
    >)
        ensures
            r == self@.forward(FsRequest::WriteFile(data, filename)),
    {
        self.forward(FsRequest::WriteFile(data, filename))
    }

    /// Deletes a file.
    #[allow(non_snake_case)]
    pub fn DeleteFile<'a>(&self, filename: &'a str) -> (r: Result<FsRequest<'a>, LibBBError>)
        ensures
            r == self@.forward(FsRequest::DeleteFile(filename)),
    {
        self.forward(FsRequest::DeleteFile(filename))
    }

    /// Asks for the usage of the filesystem.
    #[allow(non_snake_case)]
    pub fn GetStats(&self) -> (r: Result<FsRequest<'static>, LibBBError>)
        ensures
            r == self@.forward(FsRequest::GetStats),
    {
        self.forward(FsRequest::GetStats)
    }

    /// Closes the session: releases the interface and, where that can be
    /// done here, hands it back to the kernel driver. The session is
    /// uninitialised once the close has ended, also where it failed; the
    /// failure is then the outcome, for the caller to report.
    #[allow(non_snake_case)]
    pub fn Close(&mut self) -> (r: Result<(), LibBBError>)
        ensures
            r == old(self)@.admits(),
            final(self)@ == old(self)@.issue(old(self)@.close_operation(), Purpose::Close),
    {
        let op = self.close_connection();
        self.issue(op, Purpose::Close)
    }

    /// Gives the session up. Where it is initialised, whatever is in flight
    /// is dropped and the close is begun: it is to be driven to its end, and
    /// its failure is of no consequence. Tells whether there is a close to
    /// drive.
    pub fn discard(&mut self) -> (closing: bool)
        ensures
            closing == old(self)@.initialised,
            final(self)@ == old(self)@.discard(),
    {
        if self.is_initialised {
            let op = self.close_connection();
            self.begin(op, Purpose::Close);
            true
        } else {
            false
        }
    }

    /// Whether an answer can be fed. It cannot where it shows host and
    /// device to be out of step: a reply that does not hold the bytes it
    /// declared, or has no room for the status word it must bring. Nothing
    /// that follows on such a link can be relied on, and the session is not
    /// to be driven any further.
    pub fn takes(&self, event: &Event) -> (r: bool)
        ensures
            r == self@.takes(event@),
    {
        match &self.running {
            None => true,
            Some(op) => op.takes(event),
        }
    }

    /// Takes the answer to the pending action and moves on.
    pub fn feed(&mut self, event: Event)
        requires
            old(self)@.takes(event@),
        ensures
            final(self)@ == old(self)@.fed(event@),
            final(self)@.wf(),
    {
        proof {
            use_type_invariant(&*self);
        }
        let mut running: Option<Operation> = None;
        core::mem::swap(&mut running, &mut self.running);
        match running {
            None => {},
            Some(op) => {
                let next = op.feed(event);
                self.install(next);
            },
        }
        proof {
            use_type_invariant(&*self);
        }
    }
}

/// Before a session is initialised every command is refused with
/// `NoConsole`, and the refusal changes nothing: the session asks for no
/// action that it did not ask for before. The same holds of the calls for
/// the keeper of the file table.
pub proof fn lemma_refused_before_init(
    session: SessionView,
    op: OperationView,
    purpose: Purpose,
    request: FsRequest,
)
    requires
        !session.initialised,
    ensures
        session.admits() == Err::<(), LibBBError>(LibBBError::NoConsole),
        session.issue(op, purpose) == session,
        session.issue(op, purpose).pending() == session.pending(),
        session.forward(request) == Err::<FsRequest, LibBBError>(LibBBError::NoConsole),
{
}

/// An answer leaves a session well formed.
pub proof fn lemma_session_fed_keeps(session: SessionView, event: EventView)
    requires
        session.wf(),
    ensures
        session.fed(event).wf(),
        session.fed(event).geometry == session.geometry,
{
    match session.running {
        None => {},
        Some(op) => {
            crate::operation::lemma_fed_keeps(op, event);
        },
    }
}

/// A session becomes initialised in one way only: the initialisation that
/// is in flight ends in success.
pub proof fn lemma_initialised_by_init_alone(session: SessionView, event: EventView)
    requires
        !session.initialised,
        session.fed(event).initialised,
    ensures
        session.purpose == Purpose::Init,
        session.running matches Some(op) && op.fed(event).outcome() is Some && op.fed(
            event,
        ).outcome()->0 is Ok,
{
}

/// While anything but an initialisation is in flight, no run of answers
/// makes an uninitialised session initialised.
pub proof fn lemma_uninitialised_stays(session: SessionView, events: Seq<EventView>)
    requires
        !session.initialised,
        session.purpose != Purpose::Init,
    ensures
        !session.run(events).initialised,
    decreases events.len(),
{
    if events.len() > 0 {
        lemma_uninitialised_stays(session.fed(events[0]), events.skip(1));
    }
}

/// A write that finds the block marked as bad has, on a session that
/// takes commands, succeeded when it is issued, and the session asks for
/// nothing on its account, whatever it is fed afterwards.
pub proof fn lemma_bad_block_write_is_silent(session: SessionView, events: Seq<EventView>)
    requires
        session.admits() is Ok,
    ensures
        ({
            let after = session.issue(OperationView::ended(Ok(())), Purpose::Command);
            &&& after.outcome == Some(Ok::<ReplyView, LibBBError>(ReplyView::Nothing))
            &&& after.pending() is None
            &&& after.run(events) == after
        }),
    decreases events.len(),
{
    if events.len() > 0 {
        lemma_bad_block_write_is_silent(session, events.skip(1));
    }
}

/// A close that was taken leaves the session uninitialised, however it
/// ends: once nothing is in flight any more, the session is uninitialised,
/// whether the release succeeded or failed.
pub proof fn lemma_closed_is_uninitialised(session: SessionView, events: Seq<EventView>)
    requires
        session.purpose == Purpose::Close,
        session.running is Some || !session.initialised,
    ensures
        session.run(events).running is None ==> !session.run(events).initialised,
        session.run(events).purpose == Purpose::Close,
    decreases events.len(),
{
    if events.len() > 0 {
        lemma_closed_is_uninitialised(session.fed(events[0]), events.skip(1));
    }
}

} // verus!
