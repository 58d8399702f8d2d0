//! The endpoint objects the bus drives, with the per-endpoint register bits
//! the core reads and writes.
use vstd::prelude::*;

verus! {

/// What an OUT endpoint's software buffer holds.
#[derive(Clone, Copy, Debug, PartialEq, Eq, Structural)]
pub enum EndpointBufferState {
    Empty,
    DataOut,
    DataSetup,
}

/// Why a packet could not be moved into an OUT buffer.
#[derive(Clone, Copy, Debug, PartialEq, Eq, Structural)]
pub enum FillError {
    /// The buffer still holds an unread packet.
    Busy,
    /// The packet is larger than the buffer.
    TooLarge,
}

/// An IN endpoint; its number is its slot in the bus.
#[derive(Clone, Copy, Debug)]
pub struct EndpointIn {
    pub initialized: bool,
    pub configured: bool,
    pub stalled: bool,
    /// Words of FIFO memory the endpoint asks for.
    pub fifo_size_words: u16,
    /// Start of its TX FIFO, in words.
    pub tx_fifo_start: u32,
    /// Depth of its TX FIFO, in words.
    pub tx_fifo_depth: u32,
    /// Packets still to be sent.
    pub pending_packets: u16,
    /// The transfer-complete interrupt bit.
    pub transfer_complete: bool,
}

/// An OUT endpoint; its number is its slot in the bus.
#[derive(Clone, Copy, Debug)]
pub struct EndpointOut {
    pub initialized: bool,
    pub configured: bool,
    pub stalled: bool,
    /// Reception re-armed (NAK cleared, endpoint enabled).
    pub armed: bool,
    /// Size of the software buffer in bytes.
    pub capacity: u16,
    pub state: EndpointBufferState,
    /// Bytes of the packet the buffer holds.
    pub len: u16,
}

/// The buffer after a packet of `count` bytes is offered to it.
pub open spec fn filled(o: EndpointOut, count: u16, is_setup: bool) -> EndpointOut {
    if o.state == EndpointBufferState::Empty && count <= o.capacity {
        EndpointOut {
            state: if is_setup {
                EndpointBufferState::DataSetup
            } else {
                EndpointBufferState::DataOut
            },
            len: count,
            ..o
        }
    } else {
        o
    }
}

impl EndpointIn {
    /// An unused IN endpoint.
    pub fn new() -> (r: Self)
        ensures
            !r.initialized,
            !r.configured,
            !r.stalled,
            r.fifo_size_words == 0,
            r.pending_packets == 0,
            !r.transfer_complete,
    {
        EndpointIn {
            initialized: false,
            configured: false,
            stalled: false,
            fifo_size_words: 0,
            tx_fifo_start: 0,
            tx_fifo_depth: 0,
            pending_packets: 0,
            transfer_complete: false,
        }
    }

    /// Marks the endpoint in use, with its FIFO demand in words.
    pub fn initialize(&mut self, fifo_size_words: u16)
        ensures
            *final(self) == (EndpointIn { initialized: true, fifo_size_words, ..*old(self) }),
    {
        self.initialized = true;
        self.fifo_size_words = fifo_size_words;
    }
}

impl EndpointOut {
    /// An unused OUT endpoint.
    pub fn new() -> (r: Self)
        ensures
            !r.initialized,
            !r.configured,
            !r.stalled,
            !r.armed,
            r.capacity == 0,
            r.state == EndpointBufferState::Empty,
            r.len == 0,
    {
        EndpointOut {
            initialized: false,
            configured: false,
            stalled: false,
            armed: false,
            capacity: 0,
            state: EndpointBufferState::Empty,
            len: 0,
        }
    }

    /// Marks the endpoint in use, with a buffer of `capacity` bytes.
    pub fn initialize(&mut self, capacity: u16)
        ensures
            *final(self) == (EndpointOut { initialized: true, capacity, ..*old(self) }),
    {
        self.initialized = true;
        self.capacity = capacity;
    }

    /// Moves a received packet of `count` bytes into the buffer, tagged as
    /// SETUP or OUT; the buffer must be empty and large enough.
    pub fn fill_from_fifo(&mut self, count: u16, is_setup: bool) -> (r: Result<(), FillError>)
        ensures
            *final(self) == filled(*old(self), count, is_setup),
            r == (if old(self).state != EndpointBufferState::Empty {
                Err(FillError::Busy)
            } else if count > old(self).capacity {
                Err(FillError::TooLarge)
            } else {
                Ok(())
            }),
    {
        if self.state != EndpointBufferState::Empty {
            Err(FillError::Busy)
        } else if count > self.capacity {
            Err(FillError::TooLarge)
        } else {
            self.state = if is_setup {
                EndpointBufferState::DataSetup
            } else {
                EndpointBufferState::DataOut
            };
            self.len = count;
            Ok(())
        }
    }

    /// Hands the buffered packet to the consumer: its length and whether it
    /// is a SETUP packet, or `None` when the buffer is empty. The buffer is
    /// empty afterwards.
    pub fn take_packet(&mut self) -> (r: Option<(u16, bool)>)
        ensures
            *final(self) == (EndpointOut { state: EndpointBufferState::Empty, len: 0, ..*old(self) }),
            r == (if old(self).state == EndpointBufferState::Empty {
                None
            } else {
                Some((old(self).len, old(self).state == EndpointBufferState::DataSetup))
            }),
    {
        let r = if self.state == EndpointBufferState::Empty {
            None
        } else {
            Some((self.len, self.state == EndpointBufferState::DataSetup))
        };
        self.state = EndpointBufferState::Empty;
        self.len = 0;
        r
    }
}

} // verus!
