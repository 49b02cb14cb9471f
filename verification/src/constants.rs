//! Protocol constants and the flash geometry.

use vstd::prelude::*;

verus! {

/// Tag of the four-byte signal with which the device announces that it will
/// take a new request.
pub const READY: u8 = 0x15;

/// Tag that opens the four-byte length header of a reply.
pub const LENGTH_TAG: u8 = 0x1B;

/// Base of the group tags in data coming from the device.
pub const PIECEMEAL_CHUNK_RECV: u8 = 0x1C;

/// Base of the group tags in data going to the device.
pub const PIECEMEAL_CHUNK_SEND: u8 = 0x40;

/// The single byte that acknowledges a received reply body.
pub const ACK: u8 = 0x44;

/// Tag that opens every frame of a chunked send.
pub const SEND_CHUNK: u8 = 0x63;

/// Largest number of data bytes in one tagged group.
pub const PIECEMEAL_DATA_CHUNK_SIZE: usize = 3;

/// Size of one bulk packet; a shorter packet ends a reply body.
pub const PACKET_SIZE: usize = 0x80;

/// Size of one frame of a chunked send, tag and length byte included.
pub const SEND_CHUNK_SIZE: usize = 0x100;

/// Time allowed for each bulk transfer, in seconds.
pub const TIMEOUT_SECONDS: u64 = 1;

/// How often a block read or write is tried before it is given up.
pub const ATTEMPTS: u8 = 5;

/// Offset of the good/bad marker in a block's spare area.
pub const BAD_BLOCK_MARKER: usize = 5;

/// Value of the marker of a good block.
pub const GOOD_BLOCK: u8 = 0xFF;

/// How many leading spare bytes a write sends as they are.
pub const SPARE_KEPT: usize = 3;

/// Where the status word of a reply starts, and where it ends.
pub const STATUS_START: usize = 4;

pub const STATUS_END: usize = 8;

/// USB vendor identifier of a player.
pub const IQUE_VENDOR_ID: u16 = 0xBB3D;

/// USB product identifier of a player.
pub const BB_PRODUCT_ID: u16 = 0xBBDB;

/// Number of the configuration descriptor that a player must have active.
pub const RDB_CONF_DESCRIPTOR: u8 = 1;

/// The interface that carries the link.
pub const RDB_INTERFACE: u8 = 0;

/// Address of the bulk IN endpoint.
pub const RDB_BULK_EP_IN: u8 = 0x82;

/// Address of the bulk OUT endpoint.
pub const RDB_BULK_EP_OUT: u8 = 0x02;

/// Name of the scratch file that initialisation deletes.
pub const SCRATCH_FILE: &'static str = "temp.tmp";

/// The longest body that a length header can declare.
pub const REPLY_MAX: usize = 0xFF_FFFF;

/// Flash geometry of a device: the sizes in bytes of a block, of the pieces
/// in which a block is read, and of a block's spare area.
#[derive(Clone, Copy, Debug)]
pub struct Geometry {
    pub block_size: usize,
    pub chunk_size: usize,
    pub spare_size: usize,
}

impl Geometry {
    /// A block is a whole number of chunks, the spare area reaches the
    /// bad-block marker, and a chunk and a spare area are no longer than a
    /// length header can declare.
    pub open spec fn wf(&self) -> bool {
        &&& 0 < self.chunk_size <= REPLY_MAX
        &&& self.block_size % self.chunk_size == 0
        &&& BAD_BLOCK_MARKER < self.spare_size <= REPLY_MAX
    }

    /// The geometry with these sizes, if they fit together.
    pub fn new(block_size: usize, chunk_size: usize, spare_size: usize) -> (r: Option<Geometry>)
        ensures
            r == if (Geometry { block_size, chunk_size, spare_size }).wf() {
                Some(Geometry { block_size, chunk_size, spare_size })
            } else {
                None
            },
    {
        if chunk_size > 0 && chunk_size <= REPLY_MAX && block_size % chunk_size == 0 && spare_size
            > BAD_BLOCK_MARKER && spare_size <= REPLY_MAX {
            Some(Geometry { block_size, chunk_size, spare_size })
        } else {
            None
        }
    }

    /// How many replies carry one block.
    pub fn chunks(&self) -> (n: usize)
        requires
            self.wf(),
        ensures
            n == self.block_size / self.chunk_size,
    {
        self.block_size / self.chunk_size
    }
}

} // verus!
