use libbb::commands::Command;
use libbb::constants::Geometry;
use libbb::error::{LibBBError, UsbError};
use libbb::operation::{empty_plan, push_step, Fault, Operation, Reply, Shape, Step, Use};
use libbb::player_comms::{push_chunked, push_command, push_piecemeal, push_ready, push_reply};
use libbb::usb::{Action, Event, Request};
use libbb::BBPlayer;

fn player(block_size: usize, chunk_size: usize, spare_size: usize) -> BBPlayer {
    BBPlayer::new(Geometry::new(block_size, chunk_size, spare_size).unwrap(), false)
}

fn ready() -> Event {
    Event::Received(vec![0x15, 0, 0, 0])
}

fn header(len: usize) -> Event {
    Event::Received(vec![0x1B, (len >> 16) as u8, (len >> 8) as u8, len as u8])
}

fn grouped_by_device(data: &[u8]) -> Vec<u8> {
    let mut out = Vec::new();
    for group in data.chunks(3) {
        out.push(0x1C + group.len() as u8);
        out.extend_from_slice(group);
    }
    out
}

/// The events with which a device answers the receipt of one reply.
fn reply(payload: &[u8]) -> Vec<Event> {
    let mut events = vec![header(payload.len())];
    let body = grouped_by_device(payload);
    let mut last_full = true;
    for packet in body.chunks(0x80) {
        events.push(Event::Received(packet.to_vec()));
        last_full = packet.len() == 0x80;
    }
    if last_full {
        events.push(Event::Received(vec![]));
    }
    events.push(Event::Sent(1));
    events
}

fn status(code: i32) -> Vec<Event> {
    let mut payload = vec![0, 0, 0, 0];
    payload.extend_from_slice(&code.to_be_bytes());
    reply(&payload)
}

fn command_frame(opcode: u32, arg: u32) -> Vec<u8> {
    let o = opcode.to_be_bytes();
    let a = arg.to_be_bytes();
    vec![0x43, o[0], o[1], o[2], 0x43, o[3], a[0], a[1], 0x42, a[2], a[3]]
}

/// The events with which a device takes a request.
fn command_taken() -> Vec<Event> {
    vec![ready(), Event::Sent(11)]
}

/// Feeds the events one by one and notes what was asked for before each.
fn drive(mut op: Operation, events: Vec<Event>) -> (Operation, Vec<Action>) {
    let mut asked = Vec::new();
    for event in events {
        match op.pending() {
            Some(action) => asked.push(action),
            None => break,
        }
        if !op.takes(&event) {
            break;
        }
        op = op.feed(event);
    }
    (op, asked)
}

fn io(e: UsbError) -> LibBBError {
    LibBBError::USB(e)
}

#[test]
fn wait_ready_takes_the_signal() {
    let op = player(16, 4, 6).wait_ready();
    assert_eq!(op.pending(), Some(Action::Receive(4)));
    assert!(!op.finished());
    assert_eq!(op.outcome(), None);
    let op = op.feed(ready());
    assert!(op.finished());
    assert_eq!(op.pending(), None);
    assert_eq!(op.outcome(), Some(Ok(Reply::Nothing)));
}

#[test]
fn wait_ready_polls_on_over_anything_else() {
    let mut op = player(16, 4, 6).wait_ready();
    let others: [[u8; 4]; 6] = [
        [0, 0, 0, 0],
        [0x15, 0, 0, 1],
        [0x15, 1, 0, 0],
        [0x1B, 0, 0, 8],
        [0, 0, 0, 0x15],
        [0xFF, 0xFF, 0xFF, 0xFF],
    ];
    for _ in 0..50 {
        for other in others {
            op = op.feed(Event::Received(other.to_vec()));
            assert!(!op.finished());
            assert_eq!(op.pending(), Some(Action::Receive(4)));
            assert_eq!(op.attempt(), 0);
        }
    }
    let op = op.feed(ready());
    assert_eq!(op.outcome(), Some(Ok(Reply::Nothing)));
}

#[test]
fn wait_ready_fails_on_a_wrong_length() {
    for bytes in [vec![], vec![0x15], vec![0x15, 0, 0], vec![0x15, 0, 0, 0, 0]] {
        let op = player(16, 4, 6).wait_ready().feed(Event::Received(bytes));
        assert_eq!(op.outcome(), Some(Err(io(UsbError::Io))));
        assert_eq!(op.pending(), None);
    }
}

#[test]
fn wait_ready_hands_a_transport_failure_on() {
    let op = player(16, 4, 6)
        .wait_ready()
        .feed(Event::Received(vec![1, 2, 3, 4]))
        .feed(Event::Failed(io(UsbError::Timeout)));
    assert_eq!(op.outcome(), Some(Err(io(UsbError::Timeout))));
}

#[test]
fn an_answer_of_the_wrong_kind_is_a_failure() {
    let op = player(16, 4, 6).wait_ready().feed(Event::Sent(4));
    assert_eq!(op.outcome(), Some(Err(io(UsbError::Other))));
    let op = player(16, 4, 6).send_piecemeal_data(&[1]).feed(ready());
    assert_eq!(op.outcome(), Some(Err(io(UsbError::Other))));
    let op = player(16, 4, 6).receive_reply(8).feed(Event::Done);
    assert_eq!(op.outcome(), Some(Err(io(UsbError::Other))));
}

#[test]
fn an_ended_operation_takes_no_notice() {
    let op = player(16, 4, 6).wait_ready().feed(ready());
    let op = op.feed(Event::Failed(io(UsbError::Pipe))).feed(ready()).feed(Event::Sent(1));
    assert_eq!(op.outcome(), Some(Ok(Reply::Nothing)));
    assert_eq!(op.pending(), None);
}

#[test]
fn send_command_waits_then_sends_eight_bytes() {
    let op = player(16, 4, 6).send_command(Command::ReadBlockAndSpare.opcode(), 3);
    let (op, asked) = drive(op, command_taken());
    assert_eq!(
        asked,
        vec![
            Action::Receive(4),
            Action::Send(vec![0x43, 0, 0, 0, 0x43, 0x11, 0, 0, 0x42, 0, 3]),
        ]
    );
    assert_eq!(op.outcome(), Some(Ok(Reply::Nothing)));
}

#[test]
fn send_command_takes_any_number_for_the_operation() {
    let op = player(16, 4, 6).send_command(0xDEAD_BEEF, 0x0102_0304);
    let (op, asked) = drive(op, command_taken());
    assert_eq!(
        asked[1],
        Action::Send(vec![0x43, 0xDE, 0xAD, 0xBE, 0x43, 0xEF, 1, 2, 0x42, 3, 4])
    );
    assert!(op.finished());
}

#[test]
fn send_command_fails_where_the_send_fails() {
    let op = player(16, 4, 6).send_command(0x15, 0);
    let (op, asked) = drive(op, vec![ready(), Event::Failed(io(UsbError::NoDevice))]);
    assert_eq!(asked.len(), 2);
    assert_eq!(op.outcome(), Some(Err(io(UsbError::NoDevice))));
}

#[test]
fn piecemeal_send_is_one_transfer() {
    let op = player(16, 4, 6).send_piecemeal_data(&[1, 2, 3, 4]);
    assert_eq!(op.pending(), Some(Action::Send(vec![0x43, 1, 2, 3, 0x41, 4])));
    // However many bytes are reported written, the send is done.
    let op = op.feed(Event::Sent(0));
    assert_eq!(op.outcome(), Some(Ok(Reply::Nothing)));
}

#[test]
fn chunked_send_frames_every_254_bytes() {
    let data: Vec<u8> = (0..600).map(|i| (i % 251) as u8).collect();
    let op = player(16, 4, 6).send_chunked_data(&data);
    let (op, asked) = drive(op, vec![Event::Sent(256), Event::Sent(256), Event::Sent(94)]);
    assert_eq!(asked.len(), 3);
    let mut first = vec![0x63, 254];
    first.extend_from_slice(&data[..254]);
    let mut second = vec![0x63, 254];
    second.extend_from_slice(&data[254..508]);
    let mut third = vec![0x63, 92];
    third.extend_from_slice(&data[508..]);
    assert_eq!(asked[0], Action::Send(first));
    assert_eq!(asked[1], Action::Send(second));
    assert_eq!(asked[2], Action::Send(third));
    assert_eq!(op.outcome(), Some(Ok(Reply::Nothing)));
}

#[test]
fn chunked_send_of_exactly_one_frame() {
    let data = [7u8; 254];
    let op = player(16, 4, 6).send_chunked_data(&data);
    let (op, asked) = drive(op, vec![Event::Sent(256), Event::Sent(1)]);
    assert_eq!(asked.len(), 1);
    assert!(op.finished());
}

#[test]
fn chunked_send_of_nothing_sends_nothing() {
    let op = player(16, 4, 6).send_chunked_data(&[]);
    assert_eq!(op.pending(), None);
    assert_eq!(op.outcome(), Some(Ok(Reply::Nothing)));
}

#[test]
fn chunked_send_stops_at_a_failure() {
    let data = [1u8; 600];
    let op = player(16, 4, 6).send_chunked_data(&data);
    let (op, asked) =
        drive(op, vec![Event::Sent(256), Event::Failed(io(UsbError::Pipe)), Event::Sent(94)]);
    assert_eq!(asked.len(), 2);
    assert_eq!(op.outcome(), Some(Err(io(UsbError::Pipe))));
}

#[test]
fn receive_reply_hands_back_the_payload() {
    let op = player(16, 4, 6).receive_reply(8);
    let (op, asked) = drive(op, reply(&[1, 2, 3, 4, 5, 6, 7, 8]));
    assert_eq!(
        asked,
        vec![Action::Receive(4), Action::Receive(12), Action::Send(vec![0x44])]
    );
    assert_eq!(op.outcome(), Some(Ok(Reply::Bytes(vec![1, 2, 3, 4, 5, 6, 7, 8]))));
}

#[test]
fn receive_reply_may_be_shorter_than_asked_for() {
    let op = player(16, 4, 6).receive_reply(8);
    let (op, asked) = drive(op, reply(&[9, 9]));
    // Room for two bytes grouped: 2 + 0 + 1 + 1.
    assert_eq!(asked[1], Action::Receive(4));
    assert_eq!(op.outcome(), Some(Ok(Reply::Bytes(vec![9, 9]))));
}

#[test]
fn receive_reply_passes_over_a_stray_ready_signal() {
    let mut events = vec![ready(), ready()];
    events.extend(reply(&[5, 6, 7]));
    let (op, asked) = drive(player(16, 4, 6).receive_reply(4), events);
    assert_eq!(
        asked,
        vec![
            Action::Receive(4),
            Action::Receive(4),
            Action::Receive(4),
            Action::Receive(5),
            Action::Send(vec![0x44]),
        ]
    );
    assert_eq!(op.outcome(), Some(Ok(Reply::Bytes(vec![5, 6, 7]))));
}

#[test]
fn receive_reply_refuses_a_length_of_zero() {
    let (op, asked) = drive(
        player(16, 4, 6).receive_reply(8),
        vec![header(0), Event::Received(vec![]), Event::Sent(1)],
    );
    assert_eq!(asked, vec![Action::Receive(4)]);
    assert_eq!(op.outcome(), Some(Err(io(UsbError::InvalidParam))));
    assert_eq!(op.pending(), None);
}

#[test]
fn receive_reply_refuses_a_length_over_the_most() {
    for declared in [9usize, 10, 0x100, 0xFF_FFFF] {
        let (op, asked) = drive(
            player(16, 4, 6).receive_reply(8),
            vec![header(declared), Event::Received(vec![0x1D, 1]), Event::Sent(1)],
        );
        assert_eq!(asked, vec![Action::Receive(4)]);
        assert_eq!(op.outcome(), Some(Err(io(UsbError::InvalidParam))));
    }
    // The most itself is taken.
    let (op, _) = drive(player(16, 4, 6).receive_reply(8), reply(&[0; 8]));
    assert_eq!(op.outcome(), Some(Ok(Reply::Bytes(vec![0; 8]))));
}

#[test]
fn receive_reply_refuses_what_is_no_header() {
    for bytes in [
        vec![0x1A, 0, 0, 8],
        vec![0x1C, 0, 0, 8],
        vec![0x15, 0, 0, 8],
        vec![0x1B, 0, 0],
        vec![0x1B, 0, 0, 8, 0],
        vec![],
    ] {
        let op = player(16, 4, 6).receive_reply(8).feed(Event::Received(bytes));
        assert_eq!(op.outcome(), Some(Err(io(UsbError::Io))));
    }
}

#[test]
fn receive_reply_reads_packets_until_a_short_one() {
    let payload: Vec<u8> = (0..200).map(|i| i as u8).collect();
    let events = reply(&payload);
    // 200 bytes grouped are 267: two full packets and one of 11.
    assert_eq!(events.len(), 5);
    let (op, asked) = drive(player(16, 4, 6).receive_reply(200), events);
    assert_eq!(
        asked,
        vec![
            Action::Receive(4),
            Action::Receive(0x80),
            Action::Receive(0x80),
            // Room is 200 + 66 + 1 + 1 = 268; 12 are left of it.
            Action::Receive(12),
            Action::Send(vec![0x44]),
        ]
    );
    assert_eq!(op.outcome(), Some(Ok(Reply::Bytes(payload))));
}

#[test]
fn receive_reply_asks_once_more_after_a_last_full_packet() {
    // 96 bytes grouped are exactly one full packet.
    let payload = [3u8; 96];
    let events = reply(&payload);
    assert_eq!(events.len(), 4);
    let (op, asked) = drive(player(16, 4, 6).receive_reply(96), events);
    assert_eq!(
        asked,
        vec![
            Action::Receive(4),
            Action::Receive(0x80),
            // Room is 96 + 32 + 0 + 1 = 129; one byte is left of it.
            Action::Receive(1),
            Action::Send(vec![0x44]),
        ]
    );
    assert_eq!(op.outcome(), Some(Ok(Reply::Bytes(payload.to_vec()))));
}

#[test]
fn receive_reply_refuses_more_bytes_than_it_asked_for() {
    let (op, asked) = drive(
        player(16, 4, 6).receive_reply(8),
        vec![header(2), Event::Received(vec![0x1E, 1, 2, 0, 0]), Event::Sent(1)],
    );
    assert_eq!(asked, vec![Action::Receive(4), Action::Receive(4)]);
    assert_eq!(op.outcome(), Some(Err(io(UsbError::Overflow))));
}

#[test]
fn receive_reply_fails_where_a_transfer_fails() {
    let (op, asked) = drive(
        player(16, 4, 6).receive_reply(8),
        vec![header(2), Event::Failed(io(UsbError::Timeout)), Event::Sent(1)],
    );
    assert_eq!(asked.len(), 2);
    assert_eq!(op.outcome(), Some(Err(io(UsbError::Timeout))));
    let (op, asked) = drive(
        player(16, 4, 6).receive_reply(8),
        vec![header(2), Event::Received(vec![0x1E, 1, 2]), Event::Failed(io(UsbError::Pipe))],
    );
    assert_eq!(asked.len(), 3);
    assert_eq!(op.outcome(), Some(Err(io(UsbError::Pipe))));
}

#[test]
fn receive_reply_does_not_take_a_body_that_is_not_as_declared() {
    // Two bytes declared, one sent.
    let (op, asked) = drive(
        player(16, 4, 6).receive_reply(8),
        vec![header(2), Event::Received(vec![0x1D, 1]), Event::Sent(1)],
    );
    assert_eq!(asked.len(), 3);
    assert!(!op.takes(&Event::Sent(1)));
    assert!(!op.finished());
    // The failure of the acknowledgment is taken all the same.
    assert!(op.takes(&Event::Failed(io(UsbError::Pipe))));
    // Two bytes declared, three sent.
    let (op, _) = drive(
        player(16, 4, 6).receive_reply(8),
        vec![header(2), Event::Received(vec![0x1F, 1, 2, 3]), Event::Sent(1)],
    );
    assert!(!op.takes(&Event::Sent(1)));
    assert_eq!(op.outcome(), None);
}

#[test]
fn every_other_answer_is_taken() {
    let op = player(16, 4, 6).receive_reply(8);
    for event in [
        Event::Sent(1),
        Event::Received(vec![]),
        Event::Received(vec![0x1D, 1]),
        header(0),
        header(2),
        Event::Done,
        Event::Flag(true),
        Event::Number(3),
        Event::Failed(io(UsbError::Timeout)),
    ] {
        assert!(op.takes(&event));
    }
    let op = op.feed(header(2));
    assert!(op.takes(&Event::Received(vec![0x1D, 1])));
    assert!(op.takes(&Event::Sent(1)));
    let ended = player(16, 4, 6).wait_ready().feed(ready());
    assert!(ended.takes(&Event::Sent(1)));
}

#[test]
fn receive_reply_reports_a_body_that_cannot_be_read() {
    let (op, _) = drive(
        player(16, 4, 6).receive_reply(8),
        vec![header(2), Event::Received(vec![0x42, 1, 2]), Event::Sent(1)],
    );
    assert_eq!(op.outcome(), Some(Err(io(UsbError::Io))));
    let (op, _) = drive(
        player(16, 4, 6).receive_reply(8),
        vec![header(3), Event::Received(vec![0x1F, 1, 2]), Event::Sent(1)],
    );
    assert_eq!(op.outcome(), Some(Err(io(UsbError::InvalidParam))));
}

fn read_script(block: &[u8; 16], spare: &[u8; 6]) -> Vec<Event> {
    let mut events = command_taken();
    events.extend(status(0));
    for chunk in block.chunks(4) {
        events.extend(reply(chunk));
    }
    events.extend(reply(spare));
    events
}

#[test]
fn read_block_asks_for_the_block_in_chunks_and_then_the_spare() {
    let block: [u8; 16] = [0, 1, 2, 3, 4, 5, 6, 7, 8, 9, 10, 11, 12, 13, 14, 15];
    let spare: [u8; 6] = [0xA0, 0xA1, 0xA2, 0xA3, 0xA4, 0xFF];
    let op = player(16, 4, 6).read_block_spare(3);
    let (op, asked) = drive(op, read_script(&block, &spare));
    let mut expected = vec![
        // The request: a ready poll and the eight bytes.
        Action::Receive(4),
        Action::Send(vec![0x43, 0, 0, 0, 0x43, 0x11, 0, 0, 0x42, 0, 3]),
        // The status reply of eight bytes.
        Action::Receive(4),
        Action::Receive(12),
        Action::Send(vec![0x44]),
    ];
    for _ in 0..4 {
        // A chunk of four bytes.
        expected.push(Action::Receive(4));
        expected.push(Action::Receive(8));
        expected.push(Action::Send(vec![0x44]));
    }
    // The spare area of six bytes.
    expected.push(Action::Receive(4));
    expected.push(Action::Receive(9));
    expected.push(Action::Send(vec![0x44]));
    assert_eq!(asked, expected);
    assert_eq!(
        op.outcome(),
        Some(Ok(Reply::BlockSpare(block.to_vec(), spare.to_vec())))
    );
    assert_eq!(op.attempt(), 0);
    assert_eq!(op.last_failure(), None);
}

#[test]
fn read_block_refuses_a_chunk_over_its_size() {
    let mut events = command_taken();
    events.extend(status(0));
    events.push(header(5));
    let op = player(16, 4, 6).read_block_spare(3);
    let (op, _) = drive(op, events);
    // The try is given up and the next begins with a ready poll.
    assert!(!op.finished());
    assert_eq!(op.attempt(), 1);
    assert_eq!(op.last_failure(), Some(io(UsbError::InvalidParam)));
    assert_eq!(op.pending(), Some(Action::Receive(4)));
}

#[test]
fn read_block_gives_a_try_up_over_a_short_chunk() {
    let mut events = command_taken();
    events.extend(status(0));
    events.extend(reply(&[1, 2, 3, 4]));
    events.extend(reply(&[5, 6, 7]));
    let (op, asked) = drive(player(16, 4, 6).read_block_spare(0), events);
    // The short chunk is taken off the link and then fails the try.
    assert_eq!(asked.len(), 2 + 3 + 3 + 3);
    assert!(!op.finished());
    assert_eq!(op.attempt(), 1);
    assert_eq!(op.last_failure(), Some(io(UsbError::InvalidParam)));
    assert_eq!(op.pending(), Some(Action::Receive(4)));
}

#[test]
fn read_block_gives_a_try_up_over_a_short_spare_area() {
    let mut events = command_taken();
    events.extend(status(0));
    for _ in 0..4 {
        events.extend(reply(&[9; 4]));
    }
    events.extend(reply(&[0xFF; 5]));
    let (op, _) = drive(player(16, 4, 6).read_block_spare(0), events);
    assert!(!op.finished());
    assert_eq!(op.attempt(), 1);
    assert_eq!(op.last_failure(), Some(io(UsbError::InvalidParam)));
}

#[test]
fn read_block_never_ends_with_less_than_a_block() {
    // Five tries, each with one chunk short by a byte.
    let mut events = Vec::new();
    for short in 0..5usize {
        events.extend(command_taken());
        events.extend(status(0));
        for chunk in 0..4usize {
            if chunk == short % 4 {
                events.extend(reply(&[7; 3]));
                break;
            }
            events.extend(reply(&[7; 4]));
        }
    }
    let (op, _) = drive(player(16, 4, 6).read_block_spare(11), events);
    assert_eq!(op.outcome(), Some(Err(LibBBError::ReadBlock(11))));
    // On a geometry of two bytes to the block, one byte is no block.
    let mut events = command_taken();
    events.extend(status(0));
    events.extend(reply(&[1]));
    let (op, _) = drive(player(2, 2, 6).read_block_spare(0), events);
    assert_eq!(op.outcome(), None);
    assert_eq!(op.attempt(), 1);
}

#[test]
fn receive_reply_alone_takes_a_shorter_reply() {
    let (op, _) = drive(player(16, 4, 6).receive_reply(4), reply(&[5, 6, 7]));
    assert_eq!(op.outcome(), Some(Ok(Reply::Bytes(vec![5, 6, 7]))));
}

#[test]
fn read_block_gives_up_after_five_failed_tries() {
    let mut op = player(16, 4, 6).read_block_spare(0x0102_0304);
    let mut commands_sent = 0;
    for attempt in 0..5u8 {
        assert_eq!(op.attempt(), attempt);
        assert!(!op.finished());
        assert_eq!(op.pending(), Some(Action::Receive(4)));
        op = op.feed(ready());
        assert_eq!(
            op.pending(),
            Some(Action::Send(command_frame(0x11, 0x0102_0304)))
        );
        commands_sent += 1;
        op = op.feed(Event::Sent(11));
        op = op.feed(Event::Failed(io(UsbError::Timeout)));
    }
    assert_eq!(commands_sent, 5);
    assert_eq!(op.outcome(), Some(Err(LibBBError::ReadBlock(0x0102_0304))));
    assert_eq!(op.pending(), None);
    assert_eq!(op.attempt(), 5);
    assert_eq!(op.last_failure(), Some(io(UsbError::Timeout)));
}

#[test]
fn read_block_fails_at_every_stage_and_still_names_the_block() {
    let block = [1u8; 16];
    let spare = [2u8; 6];
    let good = read_script(&block, &spare);
    // Cut the script short at five different places, each time with a failure.
    let mut events = Vec::new();
    for cut in [0usize, 1, 3, 9, 17] {
        events.extend(good[..cut].iter().cloned());
        events.push(Event::Failed(io(UsbError::Pipe)));
    }
    let (op, _) = drive(player(16, 4, 6).read_block_spare(7), events);
    assert_eq!(op.outcome(), Some(Err(LibBBError::ReadBlock(7))));
}

#[test]
fn read_block_succeeds_on_its_last_try() {
    let block = [0x5Au8; 16];
    let spare = [1, 2, 3, 4, 5, 0xFF];
    let mut events = Vec::new();
    for _ in 0..4 {
        events.extend(command_taken());
        events.extend(status(-1));
    }
    events.extend(read_script(&block, &spare));
    let (op, _) = drive(player(16, 4, 6).read_block_spare(9), events);
    assert_eq!(
        op.outcome(),
        Some(Ok(Reply::BlockSpare(block.to_vec(), spare.to_vec())))
    );
    assert_eq!(op.attempt(), 4);
    assert_eq!(
        op.last_failure(),
        Some(LibBBError::Command(Command::ReadBlockAndSpare, -1))
    );
}

#[test]
fn read_block_starts_every_try_with_nothing_gathered() {
    let block = [0x11u8; 16];
    let spare = [9u8; 6];
    let mut events = command_taken();
    events.extend(status(0));
    events.extend(reply(&[0xEE; 4]));
    events.extend(reply(&[0xEE; 4]));
    events.push(Event::Failed(io(UsbError::Timeout)));
    events.extend(read_script(&block, &spare));
    let (op, _) = drive(player(16, 4, 6).read_block_spare(1), events);
    assert_eq!(
        op.outcome(),
        Some(Ok(Reply::BlockSpare(block.to_vec(), spare.to_vec())))
    );
}

#[test]
fn read_block_does_not_go_on_when_the_link_is_out_of_step() {
    let mut events = command_taken();
    events.extend(status(0));
    events.push(header(4));
    events.push(Event::Received(vec![0x1D, 1]));
    events.push(Event::Sent(1));
    let (op, _) = drive(player(16, 4, 6).read_block_spare(2), events);
    assert!(!op.takes(&Event::Sent(1)));
    assert_eq!(op.outcome(), None);
    assert_eq!(op.attempt(), 0);
}

#[test]
fn read_block_needs_a_whole_status_word() {
    let mut events = command_taken();
    events.extend(reply(&[0, 0, 0, 0, 0, 0, 0]));
    let (op, asked) = drive(player(16, 4, 6).read_block_spare(2), events);
    assert_eq!(asked.len(), 5);
    assert!(!op.takes(&Event::Sent(1)));
    assert_eq!(op.outcome(), None);
}

#[test]
fn read_single_block_is_a_read() {
    let block = [4u8; 16];
    let spare = [5u8; 6];
    let (op, asked) = drive(player(16, 4, 6).read_single_block(3), read_script(&block, &spare));
    assert_eq!(asked[1], Action::Send(command_frame(0x11, 3)));
    assert_eq!(
        op.outcome(),
        Some(Ok(Reply::BlockSpare(block.to_vec(), spare.to_vec())))
    );
}

fn write_script(frames: usize) -> Vec<Event> {
    let mut events = command_taken();
    events.push(ready());
    for _ in 0..frames {
        events.push(Event::Sent(0));
    }
    events.push(ready());
    events.push(Event::Sent(0));
    events.extend(status(0));
    events
}

#[test]
fn write_block_transmits_where_the_block_is_good() {
    let block: Vec<u8> = (0..16).collect();
    let spare = [0x01, 0x02, 0x03, 0x9A, 0x00, 0xFF];
    let op = player(16, 4, 6).write_block_spare(&block, &spare, 3);
    assert!(!op.finished());
    assert_eq!(op.pending(), Some(Action::Receive(4)));
    let (op, asked) = drive(op, write_script(1));
    let mut frame = vec![0x63, 16];
    frame.extend_from_slice(&block);
    assert_eq!(
        asked,
        vec![
            Action::Receive(4),
            Action::Send(vec![0x43, 0, 0, 0, 0x43, 0x10, 0, 0, 0x42, 0, 3]),
            Action::Receive(4),
            Action::Send(frame),
            Action::Receive(4),
            // The first three spare bytes as they are, the rest as 0xFF.
            Action::Send(vec![0x43, 0x01, 0x02, 0x03, 0x43, 0xFF, 0xFF, 0xFF]),
            Action::Receive(4),
            Action::Receive(12),
            Action::Send(vec![0x44]),
        ]
    );
    assert_eq!(op.outcome(), Some(Ok(Reply::Nothing)));
}

#[test]
fn write_block_leaves_a_bad_block_alone() {
    let block: Vec<u8> = (0..16).collect();
    for marker in [0x00u8, 0x01, 0x7F, 0xFE] {
        let spare = [0x01, 0x02, 0x03, 0x9A, 0x00, marker];
        let op = player(16, 4, 6).write_block_spare(&block, &spare, 3);
        assert!(op.finished());
        assert_eq!(op.pending(), None);
        assert_eq!(op.outcome(), Some(Ok(Reply::Nothing)));
        let op = op.feed(ready());
        assert_eq!(op.pending(), None);
    }
}

#[test]
fn write_block_fills_the_spare_area_of_the_device() {
    let spare = [7, 8, 9, 0, 0, 0xFF, 0, 0];
    let op = player(0x4000, 0x1000, 0x10).write_block_spare(&[], &spare, 0);
    let (op, asked) = drive(op, write_script(0));
    let mut masked = vec![7, 8, 9];
    masked.extend_from_slice(&[0xFF; 13]);
    let mut sent = Vec::new();
    for group in masked.chunks(3) {
        sent.push(0x40 + group.len() as u8);
        sent.extend_from_slice(group);
    }
    assert_eq!(asked[4], Action::Send(sent));
    assert_eq!(op.outcome(), Some(Ok(Reply::Nothing)));
}

#[test]
fn write_block_sends_a_large_block_in_frames() {
    let block = vec![0xC3u8; 0x4000];
    let spare = [0xFFu8; 0x10];
    let op = player(0x4000, 0x1000, 0x10).write_block_spare(&block, &spare, 0x123);
    // 16384 bytes are 64 frames of 254 and one of 128.
    let (op, asked) = drive(op, write_script(65));
    assert_eq!(asked.len(), 2 + 1 + 65 + 2 + 3);
    let mut last = vec![0x63, 128];
    last.extend_from_slice(&[0xC3; 128]);
    assert_eq!(asked[3 + 64], Action::Send(last));
    assert_eq!(op.outcome(), Some(Ok(Reply::Nothing)));
}

#[test]
fn write_block_gives_up_after_five_failed_tries() {
    let block = [0u8; 16];
    let spare = [0xFFu8; 6];
    let mut events = Vec::new();
    for _ in 0..5 {
        events.extend(command_taken());
        events.push(Event::Failed(io(UsbError::Timeout)));
    }
    let (op, asked) = drive(player(16, 4, 6).write_block_spare(&block, &spare, 77), events);
    assert_eq!(asked.len(), 15);
    assert_eq!(op.outcome(), Some(Err(LibBBError::WriteBlock(77))));
    assert_eq!(op.attempt(), 5);
}

#[test]
fn write_block_tries_again_after_a_refused_write() {
    let block = [0u8; 16];
    let spare = [0xFFu8; 6];
    let mut events = write_script(1);
    let tail = events.len() - 3;
    events.truncate(tail);
    events.extend(status(-7));
    events.extend(write_script(1));
    let (op, _) = drive(player(16, 4, 6).write_block_spare(&block, &spare, 5), events);
    assert_eq!(op.outcome(), Some(Ok(Reply::Nothing)));
    assert_eq!(op.attempt(), 1);
    assert_eq!(op.last_failure(), Some(LibBBError::CheckBlockWrite(-7)));
}

#[test]
fn write_single_block_is_a_write() {
    let op = player(16, 4, 6).write_single_block(&[1; 16], &[0, 0, 0, 0, 0, 0], 1);
    assert_eq!(op.outcome(), Some(Ok(Reply::Nothing)));
    let op = player(16, 4, 6).write_single_block(&[1; 16], &[0, 0, 0, 0, 0, 0xFF], 1);
    assert_eq!(op.pending(), Some(Action::Receive(4)));
}

fn exchange(op: Operation, answer: Vec<Event>) -> (Operation, Vec<Action>) {
    let mut events = command_taken();
    events.extend(answer);
    drive(op, events)
}

#[test]
fn init_fs_checks_the_status() {
    let (op, asked) = exchange(player(16, 4, 6).init_fs(), status(0));
    assert_eq!(asked[1], Action::Send(command_frame(0x12, 0)));
    assert_eq!(op.outcome(), Some(Ok(Reply::Nothing)));
    let (op, _) = exchange(player(16, 4, 6).init_fs(), status(-3));
    assert_eq!(op.outcome(), Some(Err(LibBBError::InitFS(-3))));
    let (op, _) = exchange(player(16, 4, 6).init_fs(), status(i32::MAX));
    assert_eq!(op.outcome(), Some(Ok(Reply::Nothing)));
    let (op, _) = exchange(player(16, 4, 6).init_fs(), status(i32::MIN));
    assert_eq!(op.outcome(), Some(Err(LibBBError::InitFS(i32::MIN))));
}

#[test]
fn get_num_blocks_reads_an_unsigned_count() {
    let (op, asked) =
        exchange(player(16, 4, 6).get_num_blocks(), reply(&[0, 0, 0, 0, 0, 0, 0x10, 0]));
    assert_eq!(asked[1], Action::Send(command_frame(0x15, 0)));
    assert_eq!(op.outcome(), Some(Ok(Reply::Number(0x1000))));
    // A count with its top bit set is a count, no failure.
    let (op, _) = exchange(player(16, 4, 6).get_num_blocks(), status(-1));
    assert_eq!(op.outcome(), Some(Ok(Reply::Number(u32::MAX))));
    let (op, _) = exchange(player(16, 4, 6).get_num_blocks(), reply(&[0, 0, 0, 0]));
    assert!(!op.takes(&Event::Sent(1)));
    assert_eq!(op.outcome(), None);
}

#[test]
fn set_seqno_and_set_led_take_any_reply() {
    let (op, asked) = exchange(player(16, 4, 6).set_seqno(1), status(-1));
    assert_eq!(asked[1], Action::Send(command_frame(0x16, 1)));
    assert_eq!(op.outcome(), Some(Ok(Reply::Nothing)));
    let (op, _) = exchange(player(16, 4, 6).set_seqno(0xFFFF_FFFF), reply(&[1]));
    assert_eq!(op.outcome(), Some(Ok(Reply::Nothing)));
    let (op, asked) = exchange(player(16, 4, 6).set_led(2), status(0));
    assert_eq!(asked[1], Action::Send(command_frame(0x1D, 2)));
    assert_eq!(op.outcome(), Some(Ok(Reply::Nothing)));
    let (op, _) = exchange(player(16, 4, 6).set_led(2), vec![header(9)]);
    assert_eq!(op.outcome(), Some(Err(io(UsbError::InvalidParam))));
}

#[test]
fn get_bbid_checks_the_status_and_reads_the_identity() {
    let (op, asked) =
        exchange(player(16, 4, 6).get_bbid(), reply(&[0, 0, 0, 0, 0x12, 0x34, 0x56, 0x78]));
    assert_eq!(asked[1], Action::Send(command_frame(0x1F, 0)));
    assert_eq!(op.outcome(), Some(Ok(Reply::Number(0x1234_5678))));
    let (op, _) = exchange(player(16, 4, 6).get_bbid(), status(-2));
    assert_eq!(op.outcome(), Some(Err(LibBBError::GetBBID(-2))));
    let (op, _) = exchange(player(16, 4, 6).get_bbid(), reply(&[0; 5]));
    assert!(!op.takes(&Event::Sent(1)));
    assert_eq!(op.outcome(), None);
}

#[test]
fn set_time_sends_the_second_half_once_the_device_agrees() {
    let timedata = [24, 2, 29, 3, 0, 23, 59, 58];
    let mut events = command_taken();
    events.extend(status(0));
    events.push(Event::Sent(6));
    let (op, asked) = drive(player(16, 4, 6).set_time(timedata), events);
    assert_eq!(
        asked,
        vec![
            Action::Receive(4),
            // The first half travels as the argument.
            Action::Send(vec![0x43, 0, 0, 0, 0x43, 0x1E, 24, 2, 0x42, 29, 3]),
            Action::Receive(4),
            Action::Receive(12),
            Action::Send(vec![0x44]),
            // The second half follows without a ready poll.
            Action::Send(vec![0x43, 0, 23, 59, 0x41, 58]),
        ]
    );
    assert_eq!(op.outcome(), Some(Ok(Reply::Nothing)));
}

#[test]
fn set_time_stops_where_the_device_refuses() {
    let (op, asked) = exchange(player(16, 4, 6).set_time([1, 2, 3, 4, 5, 6, 7, 8]), status(-9));
    assert_eq!(asked.len(), 5);
    assert_eq!(op.outcome(), Some(Err(LibBBError::SetTime(-9))));
    assert_eq!(op.pending(), None);
}

#[test]
fn file_checksum_takes_a_name_of_eight_and_three() {
    let op = player(16, 4, 6).file_checksum_cmp("AUTOEXEC.CFG", 0xCAFE_F00D, 0x1234);
    assert!(!op.finished());
    let mut events = command_taken();
    events.push(ready());
    events.push(Event::Sent(0));
    events.extend(command_taken());
    events.extend(status(0));
    let (op, asked) = drive(op, events);
    let mut name = b"AUTOEXEC.CFG".to_vec();
    name.extend_from_slice(&[0, 0, 0, 0]);
    let mut framed = Vec::new();
    for group in name.chunks(3) {
        framed.push(0x40 + group.len() as u8);
        framed.extend_from_slice(group);
    }
    assert_eq!(
        asked,
        vec![
            Action::Receive(4),
            // The name is announced with its length, the zero byte included.
            Action::Send(command_frame(0x1C, 13)),
            Action::Receive(4),
            Action::Send(framed),
            Action::Receive(4),
            // Checksum and size stand where operation and argument stand.
            Action::Send(command_frame(0xCAFE_F00D, 0x1234)),
            Action::Receive(4),
            Action::Receive(12),
            Action::Send(vec![0x44]),
        ]
    );
    assert_eq!(op.outcome(), Some(Ok(Reply::Flag(true))));
}

#[test]
fn file_checksum_tells_a_mismatch() {
    for code in [1, -1, 256, i32::MIN] {
        let mut events = command_taken();
        events.push(ready());
        events.push(Event::Sent(0));
        events.extend(command_taken());
        events.extend(status(code));
        let (op, _) = drive(player(16, 4, 6).file_checksum_cmp("a.b", 1, 2), events);
        assert_eq!(op.outcome(), Some(Ok(Reply::Flag(false))));
    }
}

#[test]
fn file_checksum_refuses_a_long_name_before_it_sends() {
    let op = player(16, 4, 6).file_checksum_cmp("AUTOEXECUTE.CFG", 0, 0);
    assert_eq!(op.pending(), None);
    assert_eq!(op.outcome(), Some(Err(LibBBError::FileNameTooLong)));
    let op = player(16, 4, 6).file_checksum_cmp("AUTOEXEC.CONF", 0, 0);
    assert_eq!(op.outcome(), Some(Err(LibBBError::FileNameTooLong)));
}

#[test]
fn file_checksum_refuses_a_name_with_a_zero_byte() {
    let op = player(16, 4, 6).file_checksum_cmp("AUTO\0.CFG", 0, 0);
    assert_eq!(op.pending(), None);
    assert_eq!(op.outcome(), Some(Err(LibBBError::FileNameCString)));
}

#[test]
fn file_checksum_counts_the_bytes_of_a_name() {
    // Eight characters, but sixteen bytes.
    let op = player(16, 4, 6).file_checksum_cmp("\u{e9}\u{e9}\u{e9}\u{e9}\u{e9}\u{e9}\u{e9}\u{e9}", 0, 0);
    assert_eq!(op.outcome(), Some(Err(LibBBError::FileNameTooLong)));
    let op = player(16, 4, 6).file_checksum_cmp("\u{e9}\u{e9}\u{e9}\u{e9}", 0, 0);
    assert!(!op.finished());
}

#[test]
fn open_device_detaches_a_kernel_driver_that_holds_the_interface() {
    let (op, asked) = drive(
        BBPlayer::open_device(true),
        vec![
            Event::Done,
            Event::Flag(true),
            Event::Done,
            Event::Done,
            Event::Number(1),
            Event::Done,
            Event::Done,
            Event::Done,
            Event::Number(1),
        ],
    );
    assert_eq!(
        asked,
        vec![
            Action::Ask(Request::Open),
            Action::Ask(Request::KernelDriverActive),
            Action::Ask(Request::DetachKernelDriver),
            Action::Ask(Request::SetConfiguration),
            Action::Ask(Request::ActiveConfiguration),
            Action::Ask(Request::ClaimInterface),
            Action::Ask(Request::ClearHaltIn),
            Action::Ask(Request::ClearHaltOut),
            Action::Ask(Request::ActiveConfiguration),
        ]
    );
    assert_eq!(op.outcome(), Some(Ok(Reply::Nothing)));
}

#[test]
fn open_device_leaves_an_idle_kernel_driver_alone() {
    let (op, asked) = drive(
        BBPlayer::open_device(true),
        vec![
            Event::Done,
            Event::Flag(false),
            Event::Done,
            Event::Number(1),
            Event::Done,
            Event::Done,
            Event::Done,
            Event::Number(1),
        ],
    );
    assert_eq!(asked.len(), 8);
    assert!(!asked.contains(&Action::Ask(Request::DetachKernelDriver)));
    assert_eq!(op.outcome(), Some(Ok(Reply::Nothing)));
}

#[test]
fn open_device_does_not_ask_for_drivers_where_they_cannot_be_detached() {
    let (op, asked) = drive(
        BBPlayer::open_device(false),
        vec![
            Event::Done,
            Event::Done,
            Event::Number(1),
            Event::Done,
            Event::Done,
            Event::Done,
            Event::Number(1),
        ],
    );
    assert_eq!(
        asked,
        vec![
            Action::Ask(Request::Open),
            Action::Ask(Request::SetConfiguration),
            Action::Ask(Request::ActiveConfiguration),
            Action::Ask(Request::ClaimInterface),
            Action::Ask(Request::ClearHaltIn),
            Action::Ask(Request::ClearHaltOut),
            Action::Ask(Request::ActiveConfiguration),
        ]
    );
    assert_eq!(op.outcome(), Some(Ok(Reply::Nothing)));
}

#[test]
fn open_device_checks_the_descriptor_twice() {
    // Wrong before the claim.
    let (op, asked) = drive(
        BBPlayer::open_device(false),
        vec![Event::Done, Event::Done, Event::Number(2), Event::Done],
    );
    assert_eq!(asked.len(), 3);
    assert_eq!(op.outcome(), Some(Err(io(UsbError::BadDescriptor))));
    // Wrong after it.
    let (op, asked) = drive(
        BBPlayer::open_device(false),
        vec![
            Event::Done,
            Event::Done,
            Event::Number(1),
            Event::Done,
            Event::Done,
            Event::Done,
            Event::Number(0),
        ],
    );
    assert_eq!(asked.len(), 7);
    assert_eq!(op.outcome(), Some(Err(io(UsbError::BadDescriptor))));
}

#[test]
fn open_device_takes_an_unreadable_descriptor_for_a_wrong_one() {
    let (op, _) = drive(
        BBPlayer::open_device(false),
        vec![Event::Done, Event::Done, Event::Failed(io(UsbError::NoDevice))],
    );
    assert_eq!(op.outcome(), Some(Err(io(UsbError::BadDescriptor))));
    let (op, _) = drive(
        BBPlayer::open_device(false),
        vec![Event::Done, Event::Done, Event::Done],
    );
    assert_eq!(op.outcome(), Some(Err(io(UsbError::BadDescriptor))));
}

#[test]
fn open_device_hands_every_other_failure_on() {
    let failures = [UsbError::Access, UsbError::NoDevice, UsbError::Busy, UsbError::NotFound];
    for (at, failure) in [0usize, 1, 3, 4].into_iter().zip(failures) {
        let mut events = vec![
            Event::Done,
            Event::Done,
            Event::Number(1),
            Event::Done,
            Event::Done,
            Event::Done,
            Event::Number(1),
        ];
        events[at] = Event::Failed(io(failure));
        let (op, asked) = drive(BBPlayer::open_device(false), events);
        assert_eq!(asked.len(), at + 1);
        assert_eq!(op.outcome(), Some(Err(io(failure))));
    }
    let (op, _) = drive(
        BBPlayer::open_device(true),
        vec![Event::Done, Event::Failed(io(UsbError::NotSupported))],
    );
    assert_eq!(op.outcome(), Some(Err(io(UsbError::NotSupported))));
    let (op, _) = drive(
        BBPlayer::open_device(true),
        vec![Event::Done, Event::Flag(true), Event::Failed(io(UsbError::Access))],
    );
    assert_eq!(op.outcome(), Some(Err(io(UsbError::Access))));
}

#[test]
fn close_connection_releases_and_reattaches() {
    let attaching = BBPlayer::new(Geometry::new(16, 4, 6).unwrap(), true);
    assert!(attaching.detaches());
    let (op, asked) = drive(attaching.close_connection(), vec![Event::Done, Event::Done]);
    assert_eq!(
        asked,
        vec![
            Action::Ask(Request::ReleaseInterface),
            Action::Ask(Request::AttachKernelDriver),
        ]
    );
    assert_eq!(op.outcome(), Some(Ok(Reply::Nothing)));
    let (op, asked) = drive(player(16, 4, 6).close_connection(), vec![Event::Done, Event::Done]);
    assert_eq!(asked, vec![Action::Ask(Request::ReleaseInterface)]);
    assert_eq!(op.outcome(), Some(Ok(Reply::Nothing)));
    let (op, asked) = drive(
        attaching.close_connection(),
        vec![Event::Failed(io(UsbError::NoDevice)), Event::Done],
    );
    assert_eq!(asked.len(), 1);
    assert_eq!(op.outcome(), Some(Err(io(UsbError::NoDevice))));
}

#[test]
fn bulk_send_is_the_bytes_as_they_are() {
    let op = player(16, 4, 6).bulk_transfer_send(&[0x44]);
    assert_eq!(op.pending(), Some(Action::Send(vec![0x44])));
    let op = op.feed(Event::Sent(1));
    assert_eq!(op.outcome(), Some(Ok(Reply::Nothing)));
    let op = player(16, 4, 6).bulk_transfer_send(&[1, 2, 3, 4, 5]);
    assert_eq!(op.pending(), Some(Action::Send(vec![1, 2, 3, 4, 5])));
    let op = op.feed(Event::Failed(io(UsbError::Timeout)));
    assert_eq!(op.outcome(), Some(Err(io(UsbError::Timeout))));
}

#[test]
fn bulk_receive_hands_back_what_came() {
    let op = player(16, 4, 6).bulk_transfer_receive(8);
    assert_eq!(op.pending(), Some(Action::Receive(8)));
    let op = op.feed(Event::Received(vec![1, 2, 3]));
    assert_eq!(op.outcome(), Some(Ok(Reply::Bytes(vec![1, 2, 3]))));
    let op = player(16, 4, 6).bulk_transfer_receive(8).feed(Event::Received(vec![]));
    assert_eq!(op.outcome(), Some(Ok(Reply::Bytes(vec![]))));
    let op = player(16, 4, 6).bulk_transfer_receive(8).feed(Event::Received(vec![7; 8]));
    assert_eq!(op.outcome(), Some(Ok(Reply::Bytes(vec![7; 8]))));
    let op = player(16, 4, 6).bulk_transfer_receive(8).feed(Event::Received(vec![7; 9]));
    assert_eq!(op.outcome(), Some(Err(io(UsbError::Overflow))));
    let op = player(16, 4, 6).bulk_transfer_receive(8).feed(Event::Failed(io(UsbError::Pipe)));
    assert_eq!(op.outcome(), Some(Err(io(UsbError::Pipe))));
}

#[test]
fn a_plan_is_worked_through_step_by_step() {
    let mut plan = empty_plan();
    push_ready(&mut plan);
    push_command(&mut plan, 0x17, 0);
    push_piecemeal(&mut plan, &[1, 2]);
    push_chunked(&mut plan, &[3, 4]);
    push_reply(&mut plan, 8, Use::Value(None));
    push_step(&mut plan, Step::Perform(Request::ClaimInterface));
    assert_eq!(plan.len(), 7);
    let op = Operation::new(plan, Shape::Number, None);
    let mut events = vec![ready(), ready(), Event::Sent(11), Event::Sent(3), Event::Sent(4)];
    events.extend(reply(&[0, 0, 0, 0, 0, 0, 0, 42]));
    events.push(Event::Done);
    let (op, asked) = drive(op, events);
    assert_eq!(
        asked,
        vec![
            Action::Receive(4),
            Action::Receive(4),
            Action::Send(command_frame(0x17, 0)),
            Action::Send(vec![0x42, 1, 2]),
            Action::Send(vec![0x63, 2, 3, 4]),
            Action::Receive(4),
            Action::Receive(12),
            Action::Send(vec![0x44]),
            Action::Ask(Request::ClaimInterface),
        ]
    );
    assert_eq!(op.outcome(), Some(Ok(Reply::Number(42))));
}

#[test]
fn a_plan_without_steps_has_succeeded() {
    let op = Operation::new(empty_plan(), Shape::Nothing, None);
    assert!(op.finished());
    assert_eq!(op.outcome(), Some(Ok(Reply::Nothing)));
    let op = Operation::new(empty_plan(), Shape::Bytes, Some(LibBBError::FS));
    assert_eq!(op.outcome(), Some(Ok(Reply::Bytes(vec![]))));
}

#[test]
fn an_operation_can_be_made_ended() {
    let op = Operation::ended(Err(LibBBError::FileNameTooLong));
    assert!(op.finished());
    assert_eq!(op.pending(), None);
    assert_eq!(op.outcome(), Some(Err(LibBBError::FileNameTooLong)));
    assert_eq!(Operation::ended(Ok(())).outcome(), Some(Ok(Reply::Nothing)));
}

#[test]
fn any_plan_can_be_tried_five_times() {
    let mut plan = empty_plan();
    push_step(&mut plan, Step::Perform(Request::ClaimInterface));
    push_step(&mut plan, Step::Perform(Request::ClearHaltIn));
    let mut op = Operation::new(plan, Shape::Nothing, Some(LibBBError::FS));
    for failed in 0..4u8 {
        op = op.feed(Event::Done);
        assert_eq!(op.pending(), Some(Action::Ask(Request::ClearHaltIn)));
        op = op.feed(Event::Failed(io(UsbError::Busy)));
        assert_eq!(op.attempt(), failed + 1);
        assert_eq!(op.pending(), Some(Action::Ask(Request::ClaimInterface)));
    }
    op = op.feed(Event::Failed(io(UsbError::Access)));
    assert_eq!(op.outcome(), Some(Err(LibBBError::FS)));
    assert_eq!(op.last_failure(), Some(io(UsbError::Access)));
}

#[test]
fn a_negative_status_is_named_after_its_command() {
    assert_eq!(
        Fault::Command(Command::ReadBlockAndSpare).raise(-5),
        LibBBError::Command(Command::ReadBlockAndSpare, -5)
    );
    assert_eq!(Fault::CheckBlockWrite.raise(-1), LibBBError::CheckBlockWrite(-1));
    assert_eq!(Fault::InitFS.raise(-2), LibBBError::InitFS(-2));
    assert_eq!(Fault::SetTime.raise(-3), LibBBError::SetTime(-3));
    assert_eq!(Fault::GetBBID.raise(i32::MIN), LibBBError::GetBBID(i32::MIN));
}

#[test]
fn an_event_stands_for_its_failure() {
    assert_eq!(Event::Failed(LibBBError::FS).failure(), LibBBError::FS);
    assert_eq!(Event::Failed(io(UsbError::Pipe)).failure(), io(UsbError::Pipe));
    assert_eq!(Event::Done.failure(), io(UsbError::Other));
    assert_eq!(Event::Sent(3).failure(), io(UsbError::Other));
    assert_eq!(Event::Received(vec![]).failure(), io(UsbError::Other));
}

/// A device that stores what a write sends and hands it back on a read.
fn store(asked: &[Action]) -> (Vec<u8>, Vec<u8>) {
    let mut block = Vec::new();
    let mut spare = Vec::new();
    for action in asked {
        if let Action::Send(bytes) = action {
            if bytes[0] == 0x63 {
                assert_eq!(bytes[1] as usize, bytes.len() - 2);
                block.extend_from_slice(&bytes[2..]);
            } else if bytes.len() != 11 && bytes[0] != 0x44 {
                let mut at = 0;
                while at < bytes.len() {
                    let group = (bytes[at] - 0x40) as usize;
                    spare.extend_from_slice(&bytes[at + 1..at + 1 + group]);
                    at += 1 + group;
                }
            }
        }
    }
    (block, spare)
}

#[test]
fn what_is_written_is_read_back_from_a_device_that_keeps_it() {
    let block: Vec<u8> = (0..16).map(|i| 0xF0 ^ i).collect();
    let spare = [0x01, 0x02, 0x03, 0xFF, 0xFF, 0xFF];
    let op = player(16, 4, 6).write_block_spare(&block, &spare, 3);
    let (op, asked) = drive(op, write_script(1));
    assert_eq!(op.outcome(), Some(Ok(Reply::Nothing)));
    let (kept_block, kept_spare) = store(&asked);
    let mut answers = command_taken();
    answers.extend(status(0));
    for chunk in kept_block.chunks(4) {
        answers.extend(reply(chunk));
    }
    answers.extend(reply(&kept_spare));
    let (op, _) = drive(player(16, 4, 6).read_block_spare(3), answers);
    assert_eq!(op.outcome(), Some(Ok(Reply::BlockSpare(block, spare.to_vec()))));
}

#[test]
fn the_spare_area_comes_back_as_it_was_sent() {
    let block = [0x3Cu8; 16];
    let spare = [0x01, 0x02, 0x03, 0x9A, 0x00, 0xFF];
    let (_, asked) = drive(player(16, 4, 6).write_block_spare(&block, &spare, 3), write_script(1));
    let (kept_block, kept_spare) = store(&asked);
    assert_eq!(kept_block, block.to_vec());
    assert_eq!(kept_spare, vec![0x01, 0x02, 0x03, 0xFF, 0xFF, 0xFF]);
}

#[test]
fn a_bad_block_keeps_what_it_held() {
    let held_block = [0x77u8; 16];
    let held_spare = [9, 9, 9, 9, 9, 0x00];
    let op = player(16, 4, 6).write_block_spare(&[0x11; 16], &held_spare, 3);
    let (op, asked) = drive(op, write_script(1));
    assert_eq!(asked, vec![]);
    assert_eq!(op.outcome(), Some(Ok(Reply::Nothing)));
    let (op, _) = drive(
        player(16, 4, 6).read_block_spare(3),
        read_script(&held_block, &held_spare),
    );
    assert_eq!(
        op.outcome(),
        Some(Ok(Reply::BlockSpare(held_block.to_vec(), held_spare.to_vec())))
    );
}
