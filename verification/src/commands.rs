//! The command layer: one operation per device opcode.

use crate::constants::{
    Geometry, BAD_BLOCK_MARKER, GOOD_BLOCK, SPARE_KEPT, STATUS_END,
};
use crate::error::LibBBError;
use crate::operation::{
    device_reply, empty_plan, lemma_ended_is_silent, lemma_fed_keeps, lemma_reply_received, lemma_run_one,
    lemma_run_split, plan_view, turn, Fault, Gain, Operation, OperationView, Phase, ReplyView,
    Shape, StepView, Turn, Use,
};
use crate::player_comms::{
    append_bytes, be_u32, chunk_frames, framed_payload, lemma_chunk_frames,
    lemma_piecemeal_groups_len, lemma_piecemeal_round_trip, piecemeal_decoding,
    piecemeal_encoding, piecemeal_groups, ready_signal, Reading, reply_status, chunked_plan, command_plan, masked_spare, piecemeal_plan, push_chunked,
    push_command, push_piecemeal, push_ready, push_reply, ready_plan, reply_plan,
    u32_from_arr,
};
use crate::constants::{PIECEMEAL_CHUNK_RECV, PIECEMEAL_CHUNK_SEND};
use crate::usb::{ActionView, EventView};
use crate::BBPlayer;
use vstd::arithmetic::div_mod::lemma_fundamental_div_mod;
use vstd::prelude::*;
use vstd::slice::slice_subrange;
use vstd::string::StringSliceAdditionalSpecFns;

verus! {

/// The requests the device understands.
#[derive(Clone, Copy, Debug, PartialEq, Eq, Structural)]
pub enum Command {
    WriteBlock,
    ReadBlock,
    WriteBlockAndSpare,
    ReadBlockAndSpare,
    InitFS,
    GetNumBlocks,
    SetSeqNo,
    GetSeqNo,
    FileChksum,
    SetLED,
    SetTime,
    GetBBID,
    SignHash,
}

impl Command {
    /// The number that stands for the command on the wire.
    pub open spec fn spec_opcode(self) -> u32 {
        match self {
            Command::WriteBlock => 0x06,
            Command::ReadBlock => 0x07,
            Command::WriteBlockAndSpare => 0x10,
            Command::ReadBlockAndSpare => 0x11,
            Command::InitFS => 0x12,
            Command::GetNumBlocks => 0x15,
            Command::SetSeqNo => 0x16,
            Command::GetSeqNo => 0x17,
            Command::FileChksum => 0x1C,
            Command::SetLED => 0x1D,
            Command::SetTime => 0x1E,
            Command::GetBBID => 0x1F,
            Command::SignHash => 0x20,
        }
    }

    #[verifier::when_used_as_spec(spec_opcode)]
    pub fn opcode(self) -> (op: u32)
        ensures
            op == self.spec_opcode(),
    {
        match self {
            Command::WriteBlock => 0x06,
            Command::ReadBlock => 0x07,
            Command::WriteBlockAndSpare => 0x10,
            Command::ReadBlockAndSpare => 0x11,
            Command::InitFS => 0x12,
            Command::GetNumBlocks => 0x15,
            Command::SetSeqNo => 0x16,
            Command::GetSeqNo => 0x17,
            Command::FileChksum => 0x1C,
            Command::SetLED => 0x1D,
            Command::SetTime => 0x1E,
            Command::GetBBID => 0x1F,
            Command::SignHash => 0x20,
        }
    }
}

/// The byte that parts a file name from its extension.
pub const DOT: u8 = 0x2E;

/// Most bytes in the name part of a file name, and in its extension.
pub const NAME_MAX: usize = 8;

pub const EXTENSION_MAX: usize = 3;

/// A moment in time, as the fields that the device's clock takes.
#[derive(Clone, Copy, Debug, PartialEq, Eq)]
pub struct Timestamp {
    pub year: i32,
    pub month: u32,
    pub day: u32,
    /// Days since Monday.
    pub weekday: u8,
    pub hour: u32,
    pub minute: u32,
    pub second: u32,
}

/// The year within its century as one byte. For a year before year zero
/// the remainder is negative and wraps round.
pub open spec fn year_byte(year: i32) -> u8 {
    if year >= 0 {
        (year % 100) as u8
    } else {
        ((256 - (-year) % 100) % 256) as u8
    }
}

/// The eight bytes that set the clock: year in the century, month, day,
/// weekday, a reserved zero, hour, minute, second, each cut to one byte.
pub open spec fn time_bytes(when: Timestamp) -> Seq<u8> {
    seq![
        year_byte(when.year),
        (when.month % 256) as u8,
        (when.day % 256) as u8,
        when.weekday,
        0u8,
        (when.hour % 256) as u8,
        (when.minute % 256) as u8,
        (when.second % 256) as u8,
    ]
}

/// How many bytes of a name stand before its first dot.
pub open spec fn stem_len(name: Seq<u8>) -> nat
    decreases name.len(),
{
    if name.len() == 0 || name[0] == DOT {
        0
    } else {
        1 + stem_len(name.skip(1))
    }
}

/// What follows the first dot of a name; nothing where it has no dot.
pub open spec fn after_dot(name: Seq<u8>) -> Seq<u8> {
    if stem_len(name) < name.len() {
        name.skip(stem_len(name) as int + 1)
    } else {
        Seq::empty()
    }
}

/// Whether a name has at most eight bytes before its first dot and at most
/// three between the first dot and the second, or the end.
pub open spec fn fits_8_3(name: Seq<u8>) -> bool {
    stem_len(name) <= NAME_MAX && stem_len(after_dot(name)) <= EXTENSION_MAX
}

/// Whether a file name can be sent, and why not.
pub open spec fn filename_check(name: Seq<u8>) -> Result<(), LibBBError> {
    if !fits_8_3(name) {
        Err(LibBBError::FileNameTooLong)
    } else if name.contains(0u8) {
        Err(LibBBError::FileNameCString)
    } else {
        Ok(())
    }
}

/// How many zero bytes fill a terminated name up to a multiple of four.
pub open spec fn filename_padding(len: nat) -> nat {
    ((4 - (len + 1) % 4) % 4) as nat
}

/// A file name as it is sent: its bytes, a zero byte, and zero bytes up to
/// a multiple of four.
pub open spec fn filename_frame(name: Seq<u8>) -> Seq<u8> {
    name + seq![0u8] + Seq::new(filename_padding(name.len()), |i: int| 0u8)
}

/// The plan of one try to read a block and its spare area: the request, a
/// status reply, the block in chunks of exactly the chunk size, the spare
/// area of exactly its size.
pub open spec fn read_block_plan(geometry: Geometry, block_num: u32) -> Seq<StepView> {
    command_plan(Command::ReadBlockAndSpare.spec_opcode(), block_num) + reply_plan(
        STATUS_END as nat,
        Use::Status(Fault::Command(Command::ReadBlockAndSpare)),
    ) + Seq::new(
        (geometry.block_size / geometry.chunk_size) as nat,
        |i: int| StepView::Reply(geometry.chunk_size as nat, Use::Chunk),
    ) + reply_plan(geometry.spare_size as nat, Use::Spare)
}

/// The plan of one try to write a block and its spare area: the request, a
/// ready poll, the block in frames, a ready poll, the masked spare area,
/// the status reply.
pub open spec fn write_block_plan(
    geometry: Geometry,
    block: Seq<u8>,
    spare: Seq<u8>,
    block_num: u32,
) -> Seq<StepView> {
    command_plan(Command::WriteBlockAndSpare.spec_opcode(), block_num) + ready_plan()
        + chunked_plan(block) + ready_plan() + piecemeal_plan(
        masked_spare(spare, geometry.spare_size as nat),
    ) + reply_plan(STATUS_END as nat, Use::Status(Fault::CheckBlockWrite))
}

/// The plan of a request that is answered by one reply of eight bytes.
pub open spec fn exchange_plan(opcode: u32, arg: u32, put: Use) -> Seq<StepView> {
    command_plan(opcode, arg) + reply_plan(STATUS_END as nat, put)
}

/// The plan that sets the clock: the first four bytes travel as the
/// request's argument, the last four follow once the device has agreed.
pub open spec fn set_time_plan(timedata: Seq<u8>) -> Seq<StepView> {
    exchange_plan(Command::SetTime.spec_opcode(), be_u32(timedata.take(4)), Use::Status(Fault::SetTime))
        + piecemeal_plan(timedata.skip(4))
}

/// The plan that compares a file's checksum: the name is announced with
/// its length and sent, then checksum and size go out in the places of
/// operation and argument.
pub open spec fn checksum_plan(name: Seq<u8>, chksum: u32, size: u32) -> Seq<StepView> {
    command_plan(Command::FileChksum.spec_opcode(), (name.len() + 1) as u32) + ready_plan()
        + piecemeal_plan(filename_frame(name)) + exchange_plan(chksum, size, Use::Verdict)
}

/// Counts the bytes of `name` from `start` to the next dot or the end.
pub fn stem_length(name: &[u8], start: usize) -> (n: usize)
    requires
        start <= name@.len(),
    ensures
        n == stem_len(name@.skip(start as int)),
        start + n <= name@.len(),
{
    let mut i: usize = start;
    while i < name.len() && name[i] != DOT
        invariant
            start <= i <= name.len(),
            stem_len(name@.skip(start as int)) == (i - start) + stem_len(name@.skip(i as int)),
        decreases name.len() - i,
    {
        proof {
            assert(name@.skip(i as int)[0] == name@[i as int]);
            assert(name@.skip(i as int).skip(1) =~= name@.skip(i + 1));
        }
        i += 1;
    }
    proof {
        if i < name.len() {
            assert(name@.skip(i as int)[0] == name@[i as int]);
        }
    }
    i - start
}

/// Tells whether a file name can be sent: `FileNameTooLong` where the name
/// part or the extension is too long, else `FileNameCString` where the
/// name holds a zero byte.
pub fn check_filename(name: &[u8]) -> (r: Result<(), LibBBError>)
    ensures
        r == filename_check(name@),
{
    let stem = stem_length(name, 0);
    proof {
        assert(name@.skip(0) =~= name@);
    }
    let extension = if stem < name.len() {
        stem_length(name, stem + 1)
    } else {
        proof {
            assert(after_dot(name@) =~= Seq::<u8>::empty());
        }
        0
    };
    if stem > NAME_MAX || extension > EXTENSION_MAX {
        return Err(LibBBError::FileNameTooLong);
    }
    let mut i: usize = 0;
    while i < name.len()
        invariant
            i <= name.len(),
            fits_8_3(name@),
            forall|k: int| 0 <= k < i ==> name@[k] != 0,
        decreases name.len() - i,
    {
        if name[i] == 0 {
            assert(name@.contains(0u8));
            return Err(LibBBError::FileNameCString);
        }
        i += 1;
    }
    Ok(())
}

/// Lays a file name out for sending.
pub fn frame_filename(name: &[u8]) -> (frame: Vec<u8>)
    requires
        name@.len() + 4 <= u32::MAX,
    ensures
        frame@ == filename_frame(name@),
        frame@.len() % 4 == 0,
{
    let mut frame: Vec<u8> = Vec::new();
    append_bytes(&mut frame, name);
    frame.push(0);
    let padding: usize = (4 - (name.len() + 1) % 4) % 4;
    let mut i: usize = 0;
    while i < padding
        invariant
            i <= padding,
            frame@ == name@ + seq![0u8] + Seq::new(i as nat, |k: int| 0u8),
        decreases padding - i,
    {
        frame.push(0);
        i += 1;
        assert(frame@ =~= name@ + seq![0u8] + Seq::new(i as nat, |k: int| 0u8));
    }
    frame
}

/// The length that announces a file name: its bytes and the zero byte.
pub fn announced_length(name: &[u8]) -> (n: u32)
    requires
        name@.len() + 4 <= u32::MAX,
    ensures
        n == name@.len() + 1,
{
    (name.len() + 1) as u32
}

/// Lays a moment in time out for the device's clock.
pub fn encode_time(when: &Timestamp) -> (timedata: [u8; 8])
    ensures
        timedata@ == time_bytes(*when),
{
    let year: u8 = if when.year >= 0 {
        (when.year % 100) as u8
    } else {
        let back: i64 = -(when.year as i64);
        ((256 - back % 100) % 256) as u8
    };
    let timedata = [
        year,
        (when.month % 256) as u8,
        (when.day % 256) as u8,
        when.weekday,
        0,
        (when.hour % 256) as u8,
        (when.minute % 256) as u8,
        (when.second % 256) as u8,
    ];
    assert(timedata@ =~= time_bytes(*when));
    timedata
}

fn exchange(opcode: u32, arg: u32, put: Use, shape: Shape) -> (op: Operation)
    ensures
        op@ == OperationView::start(exchange_plan(opcode, arg, put), shape, None),
        op@.wf(),
{
    let mut plan = empty_plan();
    push_command(&mut plan, opcode, arg);
    push_reply(&mut plan, STATUS_END, put);
    assert(plan_view(plan@) =~= exchange_plan(opcode, arg, put));
    Operation::new(plan, shape, None)
}

impl BBPlayer {
    /// Reads a block and its spare area. Each try sends the request, takes
    /// the status, then the block in chunks, then the spare area; a chunk
    /// that does not hold a chunk's size, or a spare area that does not hold
    /// its size, fails the try like any other failure. A try that fails at
    /// any point is given up and the next begins, and after `ATTEMPTS`
    /// failed tries the operation ends with `ReadBlock`.
    pub fn read_block_spare(&self, block_num: u32) -> (op: Operation)
        ensures
            op@ == block_read(self@.geometry, block_num),
            op@.wf(),
    {
        let geometry = self.geometry();
        let mut plan = empty_plan();
        push_command(&mut plan, Command::ReadBlockAndSpare.opcode(), block_num);
        push_reply(
            &mut plan,
            STATUS_END,
            Use::Status(Fault::Command(Command::ReadBlockAndSpare)),
        );
        let ghost head = plan_view(plan@);
        let chunks = geometry.chunks();
        let mut i: usize = 0;
        while i < chunks
            invariant
                i <= chunks,
                plan_view(plan@) == head + Seq::new(
                    i as nat,
                    |k: int| StepView::Reply(geometry.chunk_size as nat, Use::Chunk),
                ),
            decreases chunks - i,
        {
            push_reply(&mut plan, geometry.chunk_size, Use::Chunk);
            i += 1;
            assert(plan_view(plan@) =~= head + Seq::new(
                i as nat,
                |k: int| StepView::Reply(geometry.chunk_size as nat, Use::Chunk),
            ));
        }
        push_reply(&mut plan, geometry.spare_size, Use::Spare);
        assert(plan_view(plan@) =~= read_block_plan(geometry, block_num));
        Operation::new(plan, Shape::BlockSpare, Some(LibBBError::ReadBlock(block_num)))
    }

    /// Writes a block and its spare area. Where the spare area marks the
    /// block as bad, nothing is sent and the operation has succeeded when it
    /// is made. Else each try sends the request, the block in frames and
    /// the masked spare area, and takes the status; after `ATTEMPTS` failed
    /// tries the operation ends with `WriteBlock`.
    pub fn write_block_spare(&self, block: &[u8], spare: &[u8], block_num: u32) -> (op: Operation)
        requires
            spare@.len() > BAD_BLOCK_MARKER,
        ensures
            op@ == block_write(self@.geometry, block@, spare@, block_num),
            op@.wf(),
    {
        if spare[BAD_BLOCK_MARKER] != GOOD_BLOCK {
            return Operation::ended(Ok(()));
        }
        let geometry = self.geometry();
        let mut masked: Vec<u8> = Vec::new();
        append_bytes(&mut masked, slice_subrange(spare, 0, SPARE_KEPT));
        let mut i: usize = SPARE_KEPT;
        while i < geometry.spare_size
            invariant
                SPARE_KEPT <= i <= geometry.spare_size,
                masked@ == masked_spare(spare@, i as nat),
            decreases geometry.spare_size - i,
        {
            masked.push(GOOD_BLOCK);
            i += 1;
            assert(masked@ =~= masked_spare(spare@, i as nat));
        }
        let mut plan = empty_plan();
        push_command(&mut plan, Command::WriteBlockAndSpare.opcode(), block_num);
        push_ready(&mut plan);
        push_chunked(&mut plan, block);
        push_ready(&mut plan);
        push_piecemeal(&mut plan, masked.as_slice());
        push_reply(&mut plan, STATUS_END, Use::Status(Fault::CheckBlockWrite));
        assert(plan_view(plan@) =~= write_block_plan(geometry, block@, spare@, block_num));
        Operation::new(plan, Shape::Nothing, Some(LibBBError::WriteBlock(block_num)))
    }

    /// Has the device start its filesystem; a negative status is `InitFS`.
    pub fn init_fs(&self) -> (op: Operation)
        ensures
            op@ == OperationView::start(
                exchange_plan(Command::InitFS.spec_opcode(), 0, Use::Status(Fault::InitFS)),
                Shape::Nothing,
                None,
            ),
            op@.wf(),
    {
        exchange(Command::InitFS.opcode(), 0, Use::Status(Fault::InitFS), Shape::Nothing)
    }

    /// Asks for the number of blocks.
    pub fn get_num_blocks(&self) -> (op: Operation)
        ensures
            op@ == OperationView::start(
                exchange_plan(Command::GetNumBlocks.spec_opcode(), 0, Use::Value(None)),
                Shape::Number,
                None,
            ),
            op@.wf(),
    {
        exchange(Command::GetNumBlocks.opcode(), 0, Use::Value(None), Shape::Number)
    }

    /// Sets the sequence number; the reply only has to arrive.
    pub fn set_seqno(&self, arg: u32) -> (op: Operation)
        ensures
            op@ == OperationView::start(
                exchange_plan(Command::SetSeqNo.spec_opcode(), arg, Use::Discard),
                Shape::Nothing,
                None,
            ),
            op@.wf(),
    {
        exchange(Command::SetSeqNo.opcode(), arg, Use::Discard, Shape::Nothing)
    }

    /// Sets the LED; the reply only has to arrive.
    pub fn set_led(&self, ledval: u32) -> (op: Operation)
        ensures
            op@ == OperationView::start(
                exchange_plan(Command::SetLED.spec_opcode(), ledval, Use::Discard),
                Shape::Nothing,
                None,
            ),
            op@.wf(),
    {
        exchange(Command::SetLED.opcode(), ledval, Use::Discard, Shape::Nothing)
    }

    /// Asks for the device's identity; a negative status is `GetBBID`.
    pub fn get_bbid(&self) -> (op: Operation)
        ensures
            op@ == OperationView::start(
                exchange_plan(
                    Command::GetBBID.spec_opcode(),
                    0,
                    Use::Value(Some(Fault::GetBBID)),
                ),
                Shape::Number,
                None,
            ),
            op@.wf(),
    {
        exchange(Command::GetBBID.opcode(), 0, Use::Value(Some(Fault::GetBBID)), Shape::Number)
    }

    /// Sets the clock; a negative status is `SetTime`, and the second half
    /// of the time is then not sent.
    pub fn set_time(&self, timedata: [u8; 8]) -> (op: Operation)
        ensures
            op@ == OperationView::start(set_time_plan(timedata@), Shape::Nothing, None),
            op@.wf(),
    {
        let first = [timedata[0], timedata[1], timedata[2], timedata[3]];
        let second = [timedata[4], timedata[5], timedata[6], timedata[7]];
        assert(first@ =~= timedata@.take(4));
        assert(second@ =~= timedata@.skip(4));
        let mut plan = empty_plan();
        push_command(&mut plan, Command::SetTime.opcode(), u32_from_arr(&first));
        push_reply(&mut plan, STATUS_END, Use::Status(Fault::SetTime));
        push_piecemeal(&mut plan, &second);
        assert(plan_view(plan@) =~= set_time_plan(timedata@));
        Operation::new(plan, Shape::Nothing, None)
    }

    /// Has the device compare the checksum of a file with `chksum`; the
    /// result is whether they agree. A name that cannot be sent ends the
    /// operation before anything is sent.
    pub fn file_checksum_cmp(&self, filename: &str, chksum: u32, size: u32) -> (op: Operation)
        requires
            filename.spec_bytes().len() + 4 <= u32::MAX,
        ensures
            op@ == match filename_check(filename.spec_bytes()) {
                Err(e) => OperationView::ended(Err(e)),
                Ok(()) => OperationView::start(
                    checksum_plan(filename.spec_bytes(), chksum, size),
                    Shape::Flag,
                    None,
                ),
            },
            op@.wf(),
    {
        let name = filename.as_bytes();
        match check_filename(name) {
            Err(e) => Operation::ended(Err(e)),
            Ok(()) => {
                let frame = frame_filename(name);
                let mut plan = empty_plan();
                push_command(&mut plan, Command::FileChksum.opcode(), announced_length(name));
                push_ready(&mut plan);
                push_piecemeal(&mut plan, frame.as_slice());
                push_command(&mut plan, chksum, size);
                push_reply(&mut plan, STATUS_END, Use::Verdict);
                assert(plan_view(plan@) =~= checksum_plan(name@, chksum, size));
                Operation::new(plan, Shape::Flag, None)
            },
        }
    }

    /// Reads one block and its spare area.
    pub fn read_single_block(&self, block_num: u32) -> (op: Operation)
        ensures
            op@ == block_read(self@.geometry, block_num),
            op@.wf(),
    {
        self.read_block_spare(block_num)
    }

    /// Writes one block and its spare area.
    pub fn write_single_block(&self, block: &[u8], spare: &[u8], block_num: u32) -> (op:
        Operation)
        requires
            spare@.len() > BAD_BLOCK_MARKER,
        ensures
            op@ == block_write(self@.geometry, block@, spare@, block_num),
            op@.wf(),
    {
        self.write_block_spare(block, spare, block_num)
    }
}

/// The write of a block and its spare area: ended in success before it
/// has begun where the spare area marks the block as bad.
pub open spec fn block_write(geometry: Geometry, block: Seq<u8>, spare: Seq<u8>, block_num: u32)
    -> OperationView {
    if spare[BAD_BLOCK_MARKER as int] != GOOD_BLOCK {
        OperationView::ended(Ok(()))
    } else {
        OperationView::start(
            write_block_plan(geometry, block, spare, block_num),
            Shape::Nothing,
            Some(LibBBError::WriteBlock(block_num)),
        )
    }
}

/// The read of a block and its spare area.
pub open spec fn block_read(geometry: Geometry, block_num: u32) -> OperationView {
    OperationView::start(
        read_block_plan(geometry, block_num),
        Shape::BlockSpare,
        Some(LibBBError::ReadBlock(block_num)),
    )
}

/// How much a read has gathered by the step at which it stands: nothing
/// before the first chunk, a chunk's size for every chunk that has come,
/// and at its end a whole block and a whole spare area.
spec fn read_gathers(op: OperationView, geometry: Geometry) -> bool {
    match op.done {
        None => if op.pc < 3 {
            op.block.len() == 0 && op.spare.len() == 0
        } else {
            &&& op.block.len() == (op.pc - 3) * geometry.chunk_size
            &&& op.spare.len() == 0
        },
        Some(Ok(_)) => {
            &&& op.block.len() == geometry.block_size
            &&& op.spare.len() == geometry.spare_size
        },
        Some(Err(_)) => true,
    }
}

proof fn lemma_read_plan_shape(geometry: Geometry, block_num: u32)
    requires
        geometry.wf(),
    ensures
        ({
            let plan = read_block_plan(geometry, block_num);
            let chunks = geometry.block_size / geometry.chunk_size;
            &&& plan.len() == chunks + 4
            &&& plan[0] is Ready
            &&& plan[1] is Send
            &&& plan[2] == StepView::Reply(
                STATUS_END as nat,
                Use::Status(Fault::Command(Command::ReadBlockAndSpare)),
            )
            &&& forall|i: int|
                3 <= i < 3 + chunks ==> #[trigger] plan[i] == StepView::Reply(
                    geometry.chunk_size as nat,
                    Use::Chunk,
                )
            &&& plan[3 + chunks] == StepView::Reply(geometry.spare_size as nat, Use::Spare)
            &&& chunks * geometry.chunk_size == geometry.block_size
        }),
{
    lemma_fundamental_div_mod(geometry.block_size as int, geometry.chunk_size as int);
    assert(geometry.chunk_size * (geometry.block_size / geometry.chunk_size) == (
    geometry.block_size / geometry.chunk_size) * geometry.chunk_size) by (nonlinear_arith);
}

proof fn lemma_read_gathers(op: OperationView, geometry: Geometry, block_num: u32, event: EventView)
    requires
        geometry.wf(),
        op.wf(),
        op.plan == read_block_plan(geometry, block_num),
        op.exhausted is Some,
        read_gathers(op, geometry),
    ensures
        read_gathers(op.fed(event), geometry),
{
    lemma_read_plan_shape(geometry, block_num);
    lemma_fed_keeps(op, event);
    let chunks = geometry.block_size / geometry.chunk_size;
    let size = geometry.chunk_size as int;
    if op.done is None {
        let step = op.plan[op.pc as int];
        let t = turn(step, op.phase, op.expected, op.buf, event);
        match t {
            Turn::Next(gain) => {
                if op.pc >= 3 {
                    assert(op.phase == Phase::Ack);
                    assert(event is Sent);
                    lemma_piecemeal_groups_len(
                        op.buf,
                        Seq::empty(),
                        op.expected,
                        PIECEMEAL_CHUNK_RECV,
                    );
                    let data = piecemeal_decoding(op.buf, op.expected)->Payload_0;
                    assert(data.len() == op.expected);
                    if op.pc < 3 + chunks {
                        assert(step == StepView::Reply(size as nat, Use::Chunk));
                        assert(gain == Gain::Block(data));
                        assert(data.len() == size);
                        assert((op.pc - 3) * size + size == (op.pc + 1 - 3) * size)
                            by (nonlinear_arith);
                    } else {
                        assert(op.pc == 3 + chunks);
                        assert(gain == Gain::Spare(data));
                        assert((op.pc - 3) * size == chunks * size) by (nonlinear_arith)
                            requires
                                op.pc - 3 == chunks,
                        ;
                    }
                } else {
                    assert(gain is Nothing);
                    if op.pc + 1 == 3 {
                        assert((op.pc + 1 - 3) * size == 0) by (nonlinear_arith)
                            requires
                                op.pc + 1 - 3 == 0,
                        ;
                    }
                }
            },
            _ => {},
        }
    }
}

proof fn lemma_read_run_gathers(
    op: OperationView,
    geometry: Geometry,
    block_num: u32,
    events: Seq<EventView>,
)
    requires
        geometry.wf(),
        op.wf(),
        op.plan == read_block_plan(geometry, block_num),
        op.exhausted is Some,
        read_gathers(op, geometry),
    ensures
        read_gathers(op.run(events), geometry),
    decreases events.len(),
{
    if events.len() > 0 {
        lemma_fed_keeps(op, events[0]);
        lemma_read_gathers(op, geometry, block_num, events[0]);
        lemma_read_run_gathers(op.fed(events[0]), geometry, block_num, events.skip(1));
    }
}

/// What a read hands back has the sizes of the flash geometry, whatever
/// the device sends: the block has the size of a block, and the spare area
/// the size of a spare area.
pub proof fn lemma_read_fits(geometry: Geometry, block_num: u32, events: Seq<EventView>)
    requires
        geometry.wf(),
    ensures
        block_read(geometry, block_num).run(events).outcome() matches Some(
            Ok(ReplyView::BlockSpare(block, spare)),
        ) ==> block.len() == geometry.block_size && spare.len() == geometry.spare_size,
{
    lemma_read_plan_shape(geometry, block_num);
    lemma_read_run_gathers(block_read(geometry, block_num), geometry, block_num, events);
}

/// The answers of a device that hands a block over in chunks of `size`
/// bytes.
pub open spec fn chunk_replies(block: Seq<u8>, size: nat) -> Seq<EventView>
    decreases block.len(),
{
    if block.len() < size || size == 0 {
        Seq::empty()
    } else {
        device_reply(block.take(size as int)) + chunk_replies(block.skip(size as int), size)
    }
}

/// The answers of a device that keeps to the framing while a block is
/// read from it: it is ready, takes the request, answers with a status,
/// hands over the block in chunks, and then the spare area.
pub open spec fn read_answers(geometry: Geometry, status: Seq<u8>, block: Seq<u8>, spare: Seq<u8>)
    -> Seq<EventView> {
    seq![EventView::Received(ready_signal()), EventView::Sent(0)] + device_reply(status)
        + chunk_replies(block, geometry.chunk_size as nat) + device_reply(spare)
}

/// A read of a block that stands at a step of its first try.
spec fn read_at(geometry: Geometry, block_num: u32, pc: nat, block: Seq<u8>) -> OperationView {
    OperationView { pc, block, ..block_read(geometry, block_num) }
}

proof fn lemma_chunks_read(
    geometry: Geometry,
    block_num: u32,
    pc: nat,
    block: Seq<u8>,
    rest: Seq<u8>,
)
    requires
        geometry.wf(),
        3 <= pc <= 3 + geometry.block_size / geometry.chunk_size,
        rest.len() == (3 + geometry.block_size / geometry.chunk_size - pc) * geometry.chunk_size,
    ensures
        read_at(geometry, block_num, pc, block).run(
            chunk_replies(rest, geometry.chunk_size as nat),
        ) == read_at(
            geometry,
            block_num,
            (3 + geometry.block_size / geometry.chunk_size) as nat,
            block + rest,
        ),
        read_at(geometry, block_num, pc, block).takes_all(
            chunk_replies(rest, geometry.chunk_size as nat),
        ),
    decreases rest.len(),
{
    lemma_read_plan_shape(geometry, block_num);
    let chunks = geometry.block_size / geometry.chunk_size;
    let size = geometry.chunk_size as int;
    let op = read_at(geometry, block_num, pc, block);
    if pc == 3 + chunks {
        assert(rest.len() == 0) by (nonlinear_arith)
            requires
                rest.len() == (3 + chunks - pc) * size,
                pc == 3 + chunks,
        ;
        assert(block + rest =~= block);
    } else {
        assert(rest.len() == size + (3 + chunks - (pc + 1)) * size) by (nonlinear_arith)
            requires
                rest.len() == (3 + chunks - pc) * size,
        ;
        assert((3 + chunks - (pc + 1)) * size >= 0) by (nonlinear_arith)
            requires
                3 + chunks - (pc + 1) >= 0,
                size > 0,
        ;
        let chunk = rest.take(size);
        let after = rest.skip(size);
        assert(op.plan[pc as int] == StepView::Reply(size as nat, Use::Chunk));
        lemma_reply_received(op, chunk);
        let next = read_at(geometry, block_num, pc + 1, block + chunk);
        assert(op.run(device_reply(chunk)) == next);
        lemma_chunks_read(geometry, block_num, pc + 1, block + chunk, after);
        lemma_run_split(op, device_reply(chunk), chunk_replies(after, size as nat));
        assert(block + chunk + after =~= block + rest);
    }
}

/// A read hands back what a device that keeps to the framing sends: it
/// can be fed every answer of such a device for a block and a spare area
/// of the sizes of the geometry, and it then ends at its first try with
/// that block and that spare area.
pub proof fn lemma_read_receives(
    geometry: Geometry,
    block_num: u32,
    status: Seq<u8>,
    block: Seq<u8>,
    spare: Seq<u8>,
)
    requires
        geometry.wf(),
        status.len() == STATUS_END,
        reply_status(status) >= 0,
        block.len() == geometry.block_size,
        spare.len() == geometry.spare_size,
    ensures
        block_read(geometry, block_num).takes_all(read_answers(geometry, status, block, spare)),
        block_read(geometry, block_num).run(
            read_answers(geometry, status, block, spare),
        ).outcome() == Some(Ok::<ReplyView, LibBBError>(ReplyView::BlockSpare(block, spare))),
        block_read(geometry, block_num).run(
            read_answers(geometry, status, block, spare),
        ).attempt == 0,
{
    lemma_read_plan_shape(geometry, block_num);
    let chunks = geometry.block_size / geometry.chunk_size;
    let none = Seq::<u8>::empty();
    let start = block_read(geometry, block_num);
    let asked = seq![EventView::Received(ready_signal()), EventView::Sent(0)];
    assert(start == read_at(geometry, block_num, 0, none));
    assert(asked.skip(1) =~= seq![EventView::Sent(0)]);
    lemma_run_one(read_at(geometry, block_num, 1, none), EventView::Sent(0));
    let taken = read_at(geometry, block_num, 2, none);
    assert(start.run(asked) == taken);
    lemma_reply_received(taken, status);
    let told = read_at(geometry, block_num, 3, none);
    assert(taken.run(device_reply(status)) == told);
    assert(block.len() == (3 + chunks - 3) * geometry.chunk_size) by (nonlinear_arith)
        requires
            chunks * geometry.chunk_size == geometry.block_size,
            block.len() == geometry.block_size,
    ;
    lemma_chunks_read(geometry, block_num, 3, none, block);
    assert(none + block =~= block);
    let gathered = read_at(geometry, block_num, (3 + chunks) as nat, block);
    lemma_reply_received(gathered, spare);
    let ended = gathered.run(device_reply(spare));
    assert(ended.outcome() == Some(
        Ok::<ReplyView, LibBBError>(ReplyView::BlockSpare(block, spare)),
    ));
    let replies = chunk_replies(block, geometry.chunk_size as nat);
    lemma_run_split(start, asked, device_reply(status));
    lemma_run_split(start, asked + device_reply(status), replies);
    lemma_run_split(start, asked + device_reply(status) + replies, device_reply(spare));
}

/// What a write puts on the wire can be read back. The frames of its
/// chunked send carry the block, and the groups of its piecemeal send carry
/// the masked spare area; a device that stores the two and hands them back
/// on a read has the read end with the block as it was written, and with
/// the spare area as it was sent: its first three bytes as they were, the
/// others `0xFF`.
pub proof fn lemma_written_is_read(
    geometry: Geometry,
    block_num: u32,
    block: Seq<u8>,
    spare: Seq<u8>,
    status: Seq<u8>,
)
    requires
        geometry.wf(),
        block.len() == geometry.block_size,
        spare.len() == geometry.spare_size,
        status.len() == STATUS_END,
        reply_status(status) >= 0,
    ensures
        ({
            let sent = masked_spare(spare, geometry.spare_size as nat);
            let stored_block = framed_payload(chunk_frames(block));
            let stored_spare = piecemeal_groups(
                piecemeal_encoding(sent, PIECEMEAL_CHUNK_SEND),
                Seq::empty(),
                sent.len(),
                PIECEMEAL_CHUNK_SEND,
            );
            &&& stored_block == block
            &&& stored_spare == Reading::Payload(sent)
            &&& block_read(geometry, block_num).run(
                read_answers(geometry, status, stored_block, sent),
            ).outcome() == Some(Ok::<ReplyView, LibBBError>(ReplyView::BlockSpare(block, sent)))
        }),
{
    let sent = masked_spare(spare, geometry.spare_size as nat);
    lemma_chunk_frames(block);
    lemma_piecemeal_round_trip(sent, PIECEMEAL_CHUNK_SEND);
    lemma_read_receives(geometry, block_num, status, block, sent);
}

/// A block that is marked as bad keeps what it holds. The write to it has
/// ended in success when it is made and asks for nothing, whatever it is
/// fed, so that nothing reaches the device; and a read that is fed what
/// the device held before ends with exactly that.
pub proof fn lemma_bad_block_is_kept(
    geometry: Geometry,
    block_num: u32,
    block: Seq<u8>,
    spare: Seq<u8>,
    held_block: Seq<u8>,
    held_spare: Seq<u8>,
    status: Seq<u8>,
    events: Seq<EventView>,
)
    requires
        geometry.wf(),
        spare[BAD_BLOCK_MARKER as int] != GOOD_BLOCK,
        held_block.len() == geometry.block_size,
        held_spare.len() == geometry.spare_size,
        status.len() == STATUS_END,
        reply_status(status) >= 0,
    ensures
        block_write(geometry, block, spare, block_num).outcome() == Some(
            Ok::<ReplyView, LibBBError>(ReplyView::Nothing),
        ),
        block_write(geometry, block, spare, block_num).pending() is None,
        block_write(geometry, block, spare, block_num).asked(events) == Seq::<ActionView>::empty(),
        block_read(geometry, block_num).run(
            read_answers(geometry, status, held_block, held_spare),
        ).outcome() == Some(
            Ok::<ReplyView, LibBBError>(ReplyView::BlockSpare(held_block, held_spare)),
        ),
{
    lemma_ended_is_silent(block_write(geometry, block, spare, block_num), events);
    lemma_read_receives(geometry, block_num, status, held_block, held_spare);
}

} // verus!
