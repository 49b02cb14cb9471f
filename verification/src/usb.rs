//! The transport as the library sees it: what it asks to have done on the
//! bus, and what it is told came of it.
//!
//! Whoever owns the device handle performs each `Action` and answers with one
//! `Event`. A bulk send goes out on the OUT endpoint, a bulk receive comes in
//! on the IN endpoint, each within `TIMEOUT_SECONDS`.

use crate::constants::{BB_PRODUCT_ID, IQUE_VENDOR_ID};
use crate::error::LibBBError;
use crate::operation::{
    empty_plan, plan_view, push_step, Operation, OperationView, Shape, Step, StepView,
};
use crate::player_comms::copy_bytes;
use crate::BBPlayer;
use vstd::prelude::*;

verus! {

/// Work on the device handle, or for the keeper of the file table, that is
/// neither a bulk send nor a bulk receive.
#[derive(Clone, Copy, Debug, PartialEq, Eq, Structural)]
pub enum Request {
    /// Open the device.
    Open,
    /// Tell whether a kernel driver holds the interface.
    KernelDriverActive,
    /// Take the interface from the kernel driver.
    DetachKernelDriver,
    /// Select configuration `RDB_CONF_DESCRIPTOR`.
    SetConfiguration,
    /// Tell the number of the active configuration descriptor.
    ActiveConfiguration,
    /// Claim interface `RDB_INTERFACE`.
    ClaimInterface,
    /// Clear a halt on the bulk IN endpoint.
    ClearHaltIn,
    /// Clear a halt on the bulk OUT endpoint.
    ClearHaltOut,
    /// Release the interface.
    ReleaseInterface,
    /// Hand the interface back to the kernel driver.
    AttachKernelDriver,
    /// Read the current file table from the device; tell whether one was found.
    LoadFilesystem,
    /// Delete the file `SCRATCH_FILE` and store the updated table.
    DeleteScratchFile,
}

/// What the library asks to have done next.
#[derive(Clone, Debug, PartialEq, Eq)]
pub enum Action {
    /// Send these bytes in one bulk transfer.
    Send(Vec<u8>),
    /// Receive up to this many bytes in one bulk transfer.
    Receive(usize),
    /// Do this and tell how it went.
    Ask(Request),
}

/// An action with its bytes as a sequence.
pub enum ActionView {
    Send(Seq<u8>),
    Receive(nat),
    Ask(Request),
}

impl View for Action {
    type V = ActionView;

    open spec fn view(&self) -> ActionView {
        match self {
            Action::Send(bytes) => ActionView::Send(bytes@),
            Action::Receive(n) => ActionView::Receive(*n as nat),
            Action::Ask(request) => ActionView::Ask(*request),
        }
    }
}

/// What came of the last action.
#[derive(Clone, Debug, PartialEq, Eq)]
pub enum Event {
    /// The send went through; so many bytes were written.
    Sent(usize),
    /// The receive brought these bytes.
    Received(Vec<u8>),
    /// The request was carried out.
    Done,
    /// The answer to a yes-or-no request.
    Flag(bool),
    /// The answer to a request for a number.
    Number(u8),
    /// The action failed.
    Failed(LibBBError),
}

/// An event with its bytes as a sequence.
pub enum EventView {
    Sent(usize),
    Received(Seq<u8>),
    Done,
    Flag(bool),
    Number(u8),
    Failed(LibBBError),
}

impl View for Event {
    type V = EventView;

    open spec fn view(&self) -> EventView {
        match self {
            Event::Sent(n) => EventView::Sent(*n),
            Event::Received(bytes) => EventView::Received(bytes@),
            Event::Done => EventView::Done,
            Event::Flag(b) => EventView::Flag(*b),
            Event::Number(n) => EventView::Number(*n),
            Event::Failed(e) => EventView::Failed(*e),
        }
    }
}

impl EventView {
    /// The failure that an event stands for where it is not the answer that
    /// was waited for: its own error, or `Other` for an answer of the wrong
    /// kind.
    pub open spec fn failure(self) -> LibBBError {
        match self {
            EventView::Failed(e) => e,
            _ => LibBBError::USB(crate::error::UsbError::Other),
        }
    }
}

impl Event {
    /// The failure that this event stands for where it is not the answer
    /// that was waited for.
    pub fn failure(&self) -> (e: LibBBError)
        ensures
            e == self@.failure(),
    {
        match self {
            Event::Failed(e) => *e,
            _ => LibBBError::USB(crate::error::UsbError::Other),
        }
    }
}

/// Whether a device is a player, by the vendor and product identifiers of
/// its descriptor. A device whose descriptor could not be read is none.
pub open spec fn spec_is_bbp(descriptor: Option<(u16, u16)>) -> bool {
    descriptor matches Some(ids) && ids.0 == IQUE_VENDOR_ID && ids.1 == BB_PRODUCT_ID
}

/// The places in a list of devices at which players stand, in order.
pub open spec fn players(descriptors: Seq<Option<(u16, u16)>>) -> Seq<usize>
    decreases descriptors.len(),
{
    if descriptors.len() == 0 {
        Seq::empty()
    } else if spec_is_bbp(descriptors.last()) {
        players(descriptors.drop_last()).push((descriptors.len() - 1) as usize)
    } else {
        players(descriptors.drop_last())
    }
}

/// The plan that opens a device: open it; where kernel drivers can be
/// detached, detach one that holds the interface; select the
/// configuration and see that it is the active one; claim the interface;
/// clear a halt on both bulk endpoints; see once more that the
/// configuration is the active one.
pub open spec fn open_plan(detach: bool) -> Seq<StepView> {
    seq![StepView::Perform(Request::Open)] + if detach {
        seq![StepView::DetachDriver]
    } else {
        Seq::empty()
    } + seq![
        StepView::Perform(Request::SetConfiguration),
        StepView::CheckConfiguration,
        StepView::Perform(Request::ClaimInterface),
        StepView::Perform(Request::ClearHaltIn),
        StepView::Perform(Request::ClearHaltOut),
        StepView::CheckConfiguration,
    ]
}

/// The plan that closes a connection: release the interface and, where
/// kernel drivers can be attached, hand it back.
pub open spec fn close_plan(detach: bool) -> Seq<StepView> {
    seq![StepView::Perform(Request::ReleaseInterface)] + if detach {
        seq![StepView::Perform(Request::AttachKernelDriver)]
    } else {
        Seq::empty()
    }
}

/// The plan of one bulk send of bytes as they are.
pub open spec fn send_plan(data: Seq<u8>) -> Seq<StepView> {
    seq![StepView::Send(data)]
}

/// The plan of one bulk receive.
pub open spec fn receive_plan(length: nat) -> Seq<StepView> {
    seq![StepView::Receive(length)]
}

impl BBPlayer {
    /// Sends bytes as they are, in one bulk transfer.
    pub fn bulk_transfer_send(&self, data: &[u8]) -> (op: Operation)
        ensures
            op@ == OperationView::start(send_plan(data@), Shape::Nothing, None),
            op@.wf(),
    {
        let mut plan = empty_plan();
        push_step(&mut plan, Step::Send(copy_bytes(data)));
        assert(plan_view(plan@) =~= send_plan(data@));
        Operation::new(plan, Shape::Nothing, None)
    }

    /// Receives up to `length` bytes in one bulk transfer and hands back
    /// those that came, which may be fewer.
    pub fn bulk_transfer_receive(&self, length: usize) -> (op: Operation)
        ensures
            op@ == OperationView::start(receive_plan(length as nat), Shape::Bytes, None),
            op@.wf(),
    {
        let mut plan = empty_plan();
        push_step(&mut plan, Step::Receive(length));
        assert(plan_view(plan@) =~= receive_plan(length as nat));
        Operation::new(plan, Shape::Bytes, None)
    }

    /// Whether a device is a player.
    pub fn is_bbp(descriptor: Option<(u16, u16)>) -> (r: bool)
        ensures
            r == spec_is_bbp(descriptor),
    {
        match descriptor {
            Some((vendor_id, product_id)) => vendor_id == IQUE_VENDOR_ID && product_id
                == BB_PRODUCT_ID,
            None => false,
        }
    }

    /// Picks the players out of a list of devices: the places at which
    /// they stand, in order.
    pub fn get_players(descriptors: &[Option<(u16, u16)>]) -> (found: Vec<usize>)
        ensures
            found@ == players(descriptors@),
    {
        let mut found: Vec<usize> = Vec::new();
        let mut i: usize = 0;
        assert(descriptors@.take(0) =~= Seq::empty());
        while i < descriptors.len()
            invariant
                i <= descriptors.len(),
                found@ == players(descriptors@.take(i as int)),
            decreases descriptors.len() - i,
        {
            let ghost upto = descriptors@.take(i + 1);
            assert(upto.drop_last() =~= descriptors@.take(i as int));
            assert(upto.last() == descriptors@[i as int]);
            if Self::is_bbp(descriptors[i]) {
                found.push(i);
            }
            i += 1;
        }
        assert(descriptors@.take(i as int) =~= descriptors@);
        found
    }

    /// Opens a device. `detach` tells whether kernel drivers can be
    /// detached on this platform.
    pub fn open_device(detach: bool) -> (op: Operation)
        ensures
            op@ == OperationView::start(open_plan(detach), Shape::Nothing, None),
            op@.wf(),
            !op@.finished(),
    {
        let mut plan = empty_plan();
        push_step(&mut plan, Step::Perform(Request::Open));
        if detach {
            push_step(&mut plan, Step::DetachDriver);
        }
        push_step(&mut plan, Step::Perform(Request::SetConfiguration));
        push_step(&mut plan, Step::CheckConfiguration);
        push_step(&mut plan, Step::Perform(Request::ClaimInterface));
        push_step(&mut plan, Step::Perform(Request::ClearHaltIn));
        push_step(&mut plan, Step::Perform(Request::ClearHaltOut));
        push_step(&mut plan, Step::CheckConfiguration);
        assert(plan_view(plan@) =~= open_plan(detach));
        Operation::new(plan, Shape::Nothing, None)
    }

    /// Closes the connection: releases the interface and, where kernel
    /// drivers can be attached on this platform, hands it back.
    pub fn close_connection(&self) -> (op: Operation)
        ensures
            op@ == self@.close_operation(),
            op@.wf(),
            !op@.finished(),
    {
        let detach = self.detaches();
        let mut plan = empty_plan();
        push_step(&mut plan, Step::Perform(Request::ReleaseInterface));
        if detach {
            push_step(&mut plan, Step::Perform(Request::AttachKernelDriver));
        }
        assert(plan_view(plan@) =~= close_plan(detach));
        Operation::new(plan, Shape::Nothing, None)
    }
}

} // verus!
