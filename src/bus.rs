//! The bus driver: FIFO partitioning and endpoint bring-up, teardown, the
//! interrupt poll state machine and the lifecycle operations.
use vstd::prelude::*;
use crate::mask::has_bit16;
use crate::allocator::EndpointAllocator;
use crate::usb::{address_index, address_is_in};
use usb_device::endpoint::EndpointAddress;
use crate::endpoint::{EndpointIn, EndpointOut, EndpointBufferState, filled};

verus! {

/// Words of FIFO headroom added to the RX demand on a full-speed core.
pub const RX_HEADROOM_FS: u32 = 20;
/// Words of FIFO headroom added to the RX demand on a high-speed core.
pub const RX_HEADROOM_HS: u32 = 30;
/// Smallest TX FIFO, in words.
pub const TX_FIFO_MIN_WORDS: u16 = 16;
/// Total FIFO memory of a full-speed core, in words.
pub const FIFO_DEPTH_WORDS_FS: u32 = 320;
/// Total FIFO memory of a high-speed core, in words.
pub const FIFO_DEPTH_WORDS_HS: u32 = 1024;

/// Packet status: an OUT data packet was received.
pub const PKTSTS_OUT_RECEIVED: u8 = 0x02;
/// Packet status: an OUT transfer completed.
pub const PKTSTS_OUT_COMPLETE: u8 = 0x03;
/// Packet status: the SETUP stage completed.
pub const PKTSTS_SETUP_COMPLETE: u8 = 0x04;
/// Packet status: a SETUP packet was received.
pub const PKTSTS_SETUP_RECEIVED: u8 = 0x06;

/// Core interrupt mask bit: USB reset.
pub const GINTMSK_USBRST: u32 = 1u32 << 12u32;
/// Core interrupt mask bit: enumeration done.
pub const GINTMSK_ENUMDNE: u32 = 1u32 << 13u32;
/// Core interrupt mask bit: suspend.
pub const GINTMSK_USBSUSP: u32 = 1u32 << 11u32;
/// Core interrupt mask bit: wakeup.
pub const GINTMSK_WUI: u32 = 1u32 << 31u32;
/// Core interrupt mask bit: IN endpoint summary.
pub const GINTMSK_IEPINT: u32 = 1u32 << 18u32;
/// Core interrupt mask bit: RX FIFO non-empty.
pub const GINTMSK_RXFLVL: u32 = 1u32 << 4u32;

/// The latched core interrupt bits that `poll` reads.
#[derive(Clone, Copy, Debug, PartialEq, Eq, Structural)]
pub struct CoreInterrupts {
    pub reset: bool,
    pub enum_done: bool,
    pub wakeup: bool,
    pub suspend: bool,
    /// Summary bit: some IN endpoint has an interrupt pending.
    pub in_endpoint: bool,
}

/// One entry of the RX FIFO status queue.
#[derive(Clone, Copy, Debug, PartialEq, Eq, Structural)]
pub struct RxStatus {
    pub epnum: u8,
    pub byte_count: u16,
    pub status: u8,
}

/// A completed FIFO flush cycle.
#[derive(Clone, Copy, Debug, PartialEq, Eq, Structural)]
pub enum Flush {
    /// The RX FIFO and every TX FIFO.
    All,
    /// The RX FIFO alone.
    Rx,
    /// The TX FIFO of one IN endpoint.
    Tx(u8),
}

/// What one `poll` reports to the device stack; each mask has bit `n` for
/// endpoint `n`.
#[derive(Clone, Copy, Debug, PartialEq, Eq, Structural)]
pub enum PollResult {
    NoEvent,
    Reset,
    Data { ep_out: u16, ep_in_complete: u16, ep_setup: u16 },
    Suspend,
    Resume,
}

/// `configure_all` would place the FIFOs past the end of FIFO memory.
#[derive(Clone, Copy, Debug, PartialEq, Eq, Structural)]
pub struct FifoOverflow {
    /// Words the layout needs.
    pub needed: u32,
}

/// The global and device registers the driver programs.
#[derive(Clone, Copy, Debug)]
pub struct CoreRegisters {
    pub clock_enabled: bool,
    pub device_mode: bool,
    pub turnaround_time: u8,
    pub vbus_sensing: bool,
    pub phy_clock_stopped: bool,
    pub soft_disconnect: bool,
    pub full_speed: bool,
    /// Transfer-complete interrupts unmasked for IN endpoints.
    pub in_transfer_irq: bool,
    pub core_interrupt_mask: u32,
    pub global_interrupt: bool,
    pub transceiver_powered: bool,
    pub device_address: u8,
    /// RX FIFO size, in words.
    pub rx_fifo_size: u32,
    /// Per-endpoint IN interrupt enable bits.
    pub in_irq_mask: u16,
    /// Per-endpoint OUT interrupt enable bits.
    pub out_irq_mask: u16,
    pub interrupts: CoreInterrupts,
}

/// The driver state seen as values.
pub struct BusView {
    pub high_speed: bool,
    pub fifo_depth_words: u32,
    pub rx_buffer_words: u16,
    pub regs: CoreRegisters,
    pub rx_queue: Seq<RxStatus>,
    pub flushes: Seq<Flush>,
    pub ins: Seq<EndpointIn>,
    pub outs: Seq<EndpointOut>,
}

/// The driver for one OTG core in device mode.
pub struct UsbBus<USB> {
    pub peripheral: USB,
    /// High-speed variant of the core.
    pub high_speed: bool,
    /// Total FIFO memory, in words.
    pub fifo_depth_words: u32,
    /// Receive buffer demand of all OUT endpoints, in words.
    pub rx_buffer_words: u16,
    pub regs: CoreRegisters,
    /// RX FIFO status entries, oldest first.
    pub rx_queue: Vec<RxStatus>,
    /// Flush cycles issued, oldest first.
    pub flushes: Vec<Flush>,
    /// IN endpoints by number.
    pub endpoints_in: Vec<EndpointIn>,
    /// OUT endpoints by number.
    pub endpoints_out: Vec<EndpointOut>,
}

impl<USB> View for UsbBus<USB> {
    type V = BusView;

    open spec fn view(&self) -> BusView {
        BusView {
            high_speed: self.high_speed,
            fifo_depth_words: self.fifo_depth_words,
            rx_buffer_words: self.rx_buffer_words,
            regs: self.regs,
            rx_queue: self.rx_queue@,
            flushes: self.flushes@,
            ins: self.endpoints_in@,
            outs: self.endpoints_out@,
        }
    }
}

impl BusView {
    /// Four endpoints each way, and every status entry names one of them.
    pub open spec fn wf(self) -> bool {
        &&& self.ins.len() == 4
        &&& self.outs.len() == 4
        &&& forall|i: int| 0 <= i < self.rx_queue.len() ==> #[trigger] self.rx_queue[i].epnum < 4
    }
}

/// TX FIFO size for an endpoint demand, with the floor applied.
pub open spec fn tx_words(size: u16) -> int {
    if size > TX_FIFO_MIN_WORDS {
        size as int
    } else {
        TX_FIFO_MIN_WORDS as int
    }
}

/// RX FIFO size: the receive demand plus headroom.
pub open spec fn rx_words(v: BusView) -> int {
    v.rx_buffer_words + if v.high_speed {
        RX_HEADROOM_HS as int
    } else {
        RX_HEADROOM_FS as int
    }
}

/// Start of TX FIFO `i`: after the RX FIFO and the TX FIFOs before it.
pub open spec fn tx_start(v: BusView, i: int) -> int
    decreases i,
{
    if i <= 0 {
        rx_words(v)
    } else {
        tx_start(v, i - 1) + tx_words(v.ins[i - 1].fifo_size_words)
    }
}

/// Words the whole FIFO layout needs.
pub open spec fn fifo_top(v: BusView) -> int {
    tx_start(v, 4)
}

/// `1 << k` when `b` holds, else 0.
pub open spec fn bit_if(b: bool, k: int) -> u16 {
    if b {
        1u16 << (k as u16)
    } else {
        0u16
    }
}

/// Bits of the initialized IN endpoints among the first `i`.
pub open spec fn in_init_bits(ins: Seq<EndpointIn>, i: int) -> u16
    decreases i,
{
    if i <= 0 {
        0u16
    } else {
        in_init_bits(ins, i - 1) | bit_if(ins[i - 1].initialized, i - 1)
    }
}

/// IN endpoint `i` with its TX FIFO placed as the layout of `v` says.
pub open spec fn placed(v: BusView, i: int) -> EndpointIn {
    EndpointIn {
        tx_fifo_start: tx_start(v, i) as u32,
        tx_fifo_depth: tx_words(v.ins[i].fifo_size_words) as u32,
        ..v.ins[i]
    }
}

/// `v` with the RX FIFO sized and every TX FIFO placed.
pub open spec fn laid_out(v: BusView) -> BusView {
    BusView {
        regs: CoreRegisters { rx_fifo_size: rx_words(v) as u32, ..v.regs },
        ins: Seq::new(4, |i: int| placed(v, i)),
        ..v
    }
}

/// `v` after a flush of every FIFO: the RX status queue is empty.
pub open spec fn flushed_all(v: BusView) -> BusView {
    BusView { rx_queue: Seq::empty(), flushes: v.flushes.push(Flush::All), ..v }
}

/// `v` with every initialized endpoint configured and its interrupts
/// enabled: the transfer-complete bit of each IN endpoint, and the
/// OUT/SETUP bit of endpoint 0.
pub open spec fn endpoints_enabled(v: BusView) -> BusView {
    BusView {
        regs: CoreRegisters {
            in_irq_mask: v.regs.in_irq_mask | in_init_bits(v.ins, 4),
            out_irq_mask: v.regs.out_irq_mask | bit_if(v.outs[0].initialized, 0),
            ..v.regs
        },
        ins: Seq::new(
            4,
            |i: int| EndpointIn { configured: v.ins[i].configured || v.ins[i].initialized, ..v.ins[i] },
        ),
        outs: Seq::new(
            4,
            |i: int| EndpointOut { configured: v.outs[i].configured || v.outs[i].initialized, ..v.outs[i] },
        ),
        ..v
    }
}

/// The whole bring-up.
pub open spec fn configured(v: BusView) -> BusView {
    endpoints_enabled(flushed_all(laid_out(v)))
}

/// `v` with every endpoint deconfigured and every per-endpoint interrupt
/// disabled.
pub open spec fn deconfigured(v: BusView) -> BusView {
    BusView {
        regs: CoreRegisters { in_irq_mask: 0, out_irq_mask: 0, ..v.regs },
        ins: Seq::new(4, |i: int| EndpointIn { configured: false, ..v.ins[i] }),
        outs: Seq::new(4, |i: int| EndpointOut { configured: false, ..v.outs[i] }),
        ..v
    }
}

proof fn lemma_or_assoc(a: u16, b: u16, c: u16)
    ensures
        (a | b) | c == a | (b | c),
        a | 0u16 == a,
{
    assert((a | b) | c == a | (b | c)) by (bit_vector);
    assert(a | 0u16 == a) by (bit_vector);
}

proof fn lemma_tx_start_bound(v: BusView, i: int)
    requires
        0 <= i <= 4,
    ensures
        rx_words(v) <= tx_start(v, i) <= rx_words(v) + i * 65535,
    decreases i,
{
    if i > 0 {
        lemma_tx_start_bound(v, i - 1);
    }
}

impl<USB> UsbBus<USB> {
    /// A driver for `peripheral` with no endpoint in use and every register
    /// at its reset value.
    pub fn new(peripheral: USB, high_speed: bool, fifo_depth_words: u32, rx_buffer_words: u16) -> (r: Self)
        ensures
            r@.wf(),
            r.peripheral == peripheral,
            r@.high_speed == high_speed,
            r@.fifo_depth_words == fifo_depth_words,
            r@.rx_buffer_words == rx_buffer_words,
            r@.rx_queue.len() == 0,
            r@.flushes.len() == 0,
            forall|i: int| 0 <= i < 4 ==> !(#[trigger] r@.ins[i]).initialized && r@.ins[i].pending_packets == 0
                && !r@.ins[i].transfer_complete,
            forall|i: int| 0 <= i < 4 ==> !(#[trigger] r@.outs[i]).initialized && r@.outs[i].state
                == EndpointBufferState::Empty,
            r@.regs.interrupts == (CoreInterrupts {
                reset: false,
                enum_done: false,
                wakeup: false,
                suspend: false,
                in_endpoint: false,
            }),
    {
        let endpoints_in = vec![EndpointIn::new(), EndpointIn::new(), EndpointIn::new(), EndpointIn::new()];
        let endpoints_out = vec![EndpointOut::new(), EndpointOut::new(), EndpointOut::new(), EndpointOut::new()];
        let regs = CoreRegisters {
            clock_enabled: false,
            device_mode: false,
            turnaround_time: 0,
            vbus_sensing: true,
            phy_clock_stopped: false,
            soft_disconnect: false,
            full_speed: false,
            in_transfer_irq: false,
            core_interrupt_mask: 0,
            global_interrupt: false,
            transceiver_powered: false,
            device_address: 0,
            rx_fifo_size: 0,
            in_irq_mask: 0,
            out_irq_mask: 0,
            interrupts: CoreInterrupts {
                reset: false,
                enum_done: false,
                wakeup: false,
                suspend: false,
                in_endpoint: false,
            },
        };
        UsbBus {
            peripheral,
            high_speed,
            fifo_depth_words,
            rx_buffer_words,
            regs,
            rx_queue: Vec::new(),
            flushes: Vec::new(),
            endpoints_in,
            endpoints_out,
        }
    }

    /// Gives the peripheral back.
    pub fn free(self) -> (r: USB)
        ensures
            r == self.peripheral,
    {
        self.peripheral
    }

    fn fifo_words(size: u16) -> (r: u16)
        ensures
            r as int == tx_words(size),
    {
        if size > TX_FIFO_MIN_WORDS {
            size
        } else {
            TX_FIFO_MIN_WORDS
        }
    }

    fn rx_fifo_size(&self) -> (r: u32)
        ensures
            r as int == rx_words(self@),
    {
        if self.high_speed {
            self.rx_buffer_words as u32 + RX_HEADROOM_HS
        } else {
            self.rx_buffer_words as u32 + RX_HEADROOM_FS
        }
    }

    /// Words the FIFO layout needs, computed before anything is written.
    fn layout_top(&self) -> (r: u32)
        requires
            self@.wf(),
        ensures
            r as int == fifo_top(self@),
    {
        let mut top = self.rx_fifo_size();
        let mut i: usize = 0;
        while i < 4
            invariant
                self@.wf(),
                i <= 4,
                top as int == tx_start(self@, i as int),
            decreases 4 - i,
        {
            proof {
                lemma_tx_start_bound(self@, i as int);
            }
            top = top + Self::fifo_words(self.endpoints_in[i].fifo_size_words) as u32;
            i = i + 1;
        }
        top
    }

    fn lay_out_fifos(&mut self)
        requires
            old(self)@.wf(),
        ensures
            final(self)@ == laid_out(old(self)@),
            final(self).peripheral == old(self).peripheral,
    {
        let ghost v = self@;
        self.regs.rx_fifo_size = self.rx_fifo_size();
        let mut fifo_top = self.rx_fifo_size();
        let mut i: usize = 0;
        while i < 4
            invariant
                i <= 4,
                fifo_top as int == tx_start(v, i as int),
                self.endpoints_in@.len() == 4,
                forall|j: int| 0 <= j < i ==> #[trigger] self.endpoints_in@[j] == placed(v, j),
                forall|j: int| i <= j < 4 ==> #[trigger] self.endpoints_in@[j] == v.ins[j],
                self@ == (BusView { regs: CoreRegisters { rx_fifo_size: rx_words(v) as u32, ..v.regs }, ins: self@.ins, ..v }),
                self.peripheral == old(self).peripheral,
                v.wf(),
            decreases 4 - i,
        {
            proof {
                lemma_tx_start_bound(v, i as int);
            }
            let mut ep = self.endpoints_in[i];
            let words = Self::fifo_words(ep.fifo_size_words);
            ep.tx_fifo_start = fifo_top;
            ep.tx_fifo_depth = words as u32;
            self.endpoints_in.set(i, ep);
            fifo_top = fifo_top + words as u32;
            i = i + 1;
        }
        assert(self@.ins =~= laid_out(v).ins);
    }

    fn flush_all(&mut self)
        ensures
            final(self)@ == flushed_all(old(self)@),
            final(self).peripheral == old(self).peripheral,
    {
        self.flushes.push(Flush::All);
        self.rx_queue.clear();
        assert(self@.rx_queue =~= Seq::<RxStatus>::empty());
    }

    fn enable_endpoints(&mut self)
        requires
            old(self)@.wf(),
        ensures
            final(self)@ == endpoints_enabled(old(self)@),
            final(self).peripheral == old(self).peripheral,
    {
        let ghost v = self@;
        let mut i: usize = 0;
        proof {
            lemma_or_assoc(v.regs.in_irq_mask, 0, 0);
        }
        while i < 4
            invariant
                i <= 4,
                v.wf(),
                self.endpoints_in@.len() == 4,
                self.regs.in_irq_mask == v.regs.in_irq_mask | in_init_bits(v.ins, i as int),
                forall|j: int| 0 <= j < i ==> #[trigger] self.endpoints_in@[j] == (EndpointIn {
                    configured: v.ins[j].configured || v.ins[j].initialized,
                    ..v.ins[j]
                }),
                forall|j: int| i <= j < 4 ==> #[trigger] self.endpoints_in@[j] == v.ins[j],
                self@ == (BusView { regs: CoreRegisters { in_irq_mask: self.regs.in_irq_mask, ..v.regs }, ins: self@.ins, ..v }),
                self.peripheral == old(self).peripheral,
            decreases 4 - i,
        {
            let mut ep = self.endpoints_in[i];
            proof {
                lemma_or_assoc(v.regs.in_irq_mask, in_init_bits(v.ins, i as int), bit_if(ep.initialized, i as int));
                lemma_or_assoc(in_init_bits(v.ins, i as int), 0, 0);
                lemma_or_assoc(self.regs.in_irq_mask, 0, 0);
                assert(in_init_bits(v.ins, i + 1) == in_init_bits(v.ins, i as int) | bit_if(ep.initialized, i as int));
            }
            if ep.initialized {
                self.regs.in_irq_mask = self.regs.in_irq_mask | (1u16 << (i as u16));
                ep.configured = true;
                self.endpoints_in.set(i, ep);
            }
            i = i + 1;
        }
        assert(self@.ins =~= endpoints_enabled(v).ins);
        let ghost w = self@;
        i = 0;
        while i < 4
            invariant
                i <= 4,
                v.wf(),
                self.endpoints_out@.len() == 4,
                i > 0 ==> self.regs.out_irq_mask == v.regs.out_irq_mask | bit_if(v.outs[0].initialized, 0),
                i == 0 ==> self.regs.out_irq_mask == v.regs.out_irq_mask,
                forall|j: int| 0 <= j < i ==> #[trigger] self.endpoints_out@[j] == (EndpointOut {
                    configured: v.outs[j].configured || v.outs[j].initialized,
                    ..v.outs[j]
                }),
                forall|j: int| i <= j < 4 ==> #[trigger] self.endpoints_out@[j] == v.outs[j],
                self@ == (BusView { regs: CoreRegisters { out_irq_mask: self.regs.out_irq_mask, ..w.regs }, outs: self@.outs, ..w }),
                self.peripheral == old(self).peripheral,
            decreases 4 - i,
        {
            let mut ep = self.endpoints_out[i];
            if ep.initialized {
                if i == 0 {
                    self.regs.out_irq_mask = self.regs.out_irq_mask | 1u16;
                }
                ep.configured = true;
                self.endpoints_out.set(i, ep);
            }
            proof {
                if i == 0 {
                    lemma_or_assoc(v.regs.out_irq_mask, 0, 0);
                    assert(1u16 << 0u16 == 1u16) by (bit_vector);
                }
            }
            i = i + 1;
        }
        assert(self@.outs =~= endpoints_enabled(v).outs);
    }

    /// Partitions the FIFO memory and brings up every initialized endpoint:
    /// the RX FIFO gets the receive demand plus headroom, TX FIFOs 0 to 3
    /// follow in order, each at least 16 words; then every FIFO is flushed
    /// and the endpoints are configured. A layout that does not fit in FIFO
    /// memory is refused before anything is written.
    pub fn configure_all(&mut self) -> (r: Result<(), FifoOverflow>)
        requires
            old(self)@.wf(),
        ensures
            final(self).peripheral == old(self).peripheral,
            fifo_top(old(self)@) <= old(self)@.fifo_depth_words ==> r is Ok && final(self)@ == configured(old(self)@),
            fifo_top(old(self)@) > old(self)@.fifo_depth_words ==> r == Err::<(), FifoOverflow>(
                FifoOverflow { needed: fifo_top(old(self)@) as u32 },
            ) && final(self)@ == old(self)@,
    {
        let top = self.layout_top();
        if top > self.fifo_depth_words {
            return Err(FifoOverflow { needed: top });
        }
        self.lay_out_fifos();
        self.flush_all();
        self.enable_endpoints();
        Ok(())
    }

    /// Disables every per-endpoint interrupt and deconfigures every
    /// endpoint, in use or not.
    pub fn deconfigure_all(&mut self)
        requires
            old(self)@.wf(),
        ensures
            final(self)@ == deconfigured(old(self)@),
            final(self).peripheral == old(self).peripheral,
    {
        let ghost v = self@;
        self.regs.in_irq_mask = 0;
        self.regs.out_irq_mask = 0;
        let mut i: usize = 0;
        while i < 4
            invariant
                i <= 4,
                v.wf(),
                self.endpoints_in@.len() == 4,
                self.endpoints_out@.len() == 4,
                forall|j: int| 0 <= j < i ==> #[trigger] self.endpoints_in@[j] == (EndpointIn { configured: false, ..v.ins[j] }),
                forall|j: int| i <= j < 4 ==> #[trigger] self.endpoints_in@[j] == v.ins[j],
                forall|j: int| 0 <= j < i ==> #[trigger] self.endpoints_out@[j] == (EndpointOut { configured: false, ..v.outs[j] }),
                forall|j: int| i <= j < 4 ==> #[trigger] self.endpoints_out@[j] == v.outs[j],
                self@ == (BusView {
                    regs: CoreRegisters { in_irq_mask: 0, out_irq_mask: 0, ..v.regs },
                    ins: self@.ins,
                    outs: self@.outs,
                    ..v
                }),
                self.peripheral == old(self).peripheral,
            decreases 4 - i,
        {
            let mut ep = self.endpoints_in[i];
            ep.configured = false;
            self.endpoints_in.set(i, ep);
            let mut ep = self.endpoints_out[i];
            ep.configured = false;
            self.endpoints_out.set(i, ep);
            i = i + 1;
        }
        assert(self@.ins =~= deconfigured(v).ins);
        assert(self@.outs =~= deconfigured(v).outs);
    }
}

/// `v` after a detected bus reset: the bit acknowledged, the endpoints torn
/// down and the RX FIFO flushed.
pub open spec fn after_bus_reset(v: BusView) -> BusView {
    let acked = BusView {
        regs: CoreRegisters { interrupts: CoreInterrupts { reset: false, ..v.regs.interrupts }, ..v.regs },
        ..v
    };
    let d = deconfigured(acked);
    BusView { rx_queue: Seq::empty(), flushes: d.flushes.push(Flush::Rx), ..d }
}

/// The bit of the endpoint named by the head status entry, when its status
/// is `code`.
pub open spec fn rx_bit(v: BusView, code: u8) -> u16 {
    if v.rx_queue.len() > 0 && v.rx_queue[0].status == code {
        1u16 << (v.rx_queue[0].epnum as u16)
    } else {
        0u16
    }
}

/// `v` after the head status entry, if any, is handled: a received packet
/// is drained into its endpoint's buffer and the entry popped only when that
/// buffer is empty (a SETUP first flushes a stale IN transfer on the same
/// number); completion entries re-arm the endpoint and are popped; any
/// other entry is popped.
pub open spec fn rx_phase(v: BusView) -> BusView {
    if v.rx_queue.len() == 0 {
        v
    } else {
        let e = v.rx_queue[0];
        let n = e.epnum as int;
        let popped = v.rx_queue.subrange(1, v.rx_queue.len() as int);
        if e.status == PKTSTS_OUT_RECEIVED || e.status == PKTSTS_SETUP_RECEIVED {
            let is_setup = e.status == PKTSTS_SETUP_RECEIVED;
            let v1 = if is_setup && v.ins[n].pending_packets != 0 {
                BusView { flushes: v.flushes.push(Flush::Tx(e.epnum)), ..v }
            } else {
                v
            };
            if v1.outs[n].state == EndpointBufferState::Empty {
                BusView {
                    rx_queue: popped,
                    outs: v1.outs.update(n, filled(v1.outs[n], e.byte_count, is_setup)),
                    ..v1
                }
            } else {
                v1
            }
        } else if e.status == PKTSTS_OUT_COMPLETE || e.status == PKTSTS_SETUP_COMPLETE {
            BusView { rx_queue: popped, outs: v.outs.update(n, EndpointOut { armed: true, ..v.outs[n] }), ..v }
        } else {
            BusView { rx_queue: popped, ..v }
        }
    }
}

/// Bits of the IN endpoints among the first `i` that are in use and have a
/// transfer completed.
pub open spec fn complete_bits(ins: Seq<EndpointIn>, i: int) -> u16
    decreases i,
{
    if i <= 0 {
        0u16
    } else {
        complete_bits(ins, i - 1) | bit_if(ins[i - 1].initialized && ins[i - 1].transfer_complete, i - 1)
    }
}

/// Bits of the OUT endpoints among the first `i` that are in use and whose
/// buffer is in state `st`.
pub open spec fn state_bits(outs: Seq<EndpointOut>, st: EndpointBufferState, i: int) -> u16
    decreases i,
{
    if i <= 0 {
        0u16
    } else {
        state_bits(outs, st, i - 1) | bit_if(outs[i - 1].initialized && outs[i - 1].state == st, i - 1)
    }
}

/// `v` after the IN summary is handled: the transfer-complete bits of the
/// endpoints in use are acknowledged.
pub open spec fn in_phase(v: BusView) -> BusView {
    if v.regs.interrupts.in_endpoint {
        BusView {
            ins: Seq::new(
                4,
                |i: int| EndpointIn {
                    transfer_complete: v.ins[i].transfer_complete && !v.ins[i].initialized,
                    ..v.ins[i]
                },
            ),
            ..v
        }
    } else {
        v
    }
}

/// The IN completion mask of a data pass.
pub open spec fn in_complete_mask(v: BusView) -> u16 {
    if v.regs.interrupts.in_endpoint {
        complete_bits(v.ins, 4)
    } else {
        0u16
    }
}

/// The OUT mask of a data pass.
pub open spec fn out_mask(v: BusView) -> u16 {
    rx_bit(v, PKTSTS_OUT_RECEIVED) | state_bits(rx_phase(v).outs, EndpointBufferState::DataOut, 4)
}

/// The SETUP mask of a data pass.
pub open spec fn setup_mask(v: BusView) -> u16 {
    rx_bit(v, PKTSTS_SETUP_RECEIVED) | state_bits(rx_phase(v).outs, EndpointBufferState::DataSetup, 4)
}

/// What a data pass reports.
pub open spec fn data_result(v: BusView) -> PollResult {
    if (in_complete_mask(v) | out_mask(v) | setup_mask(v)) != 0 {
        PollResult::Data { ep_out: out_mask(v), ep_in_complete: in_complete_mask(v), ep_setup: setup_mask(v) }
    } else {
        PollResult::NoEvent
    }
}

/// One `poll`: the state after it and what it reports. A bus reset is
/// handled first and does not end the pass; then the first of enumeration
/// done, wakeup and suspend is acknowledged and reported; with none of
/// them, a data pass runs.
pub open spec fn poll_step(v: BusView) -> (BusView, PollResult) {
    let s = v.regs.interrupts;
    let v1 = if s.reset {
        after_bus_reset(v)
    } else {
        v
    };
    if s.enum_done {
        (
            BusView {
                regs: CoreRegisters { interrupts: CoreInterrupts { enum_done: false, ..v1.regs.interrupts }, ..v1.regs },
                ..v1
            },
            PollResult::Reset,
        )
    } else if s.wakeup {
        (
            BusView {
                regs: CoreRegisters { interrupts: CoreInterrupts { wakeup: false, ..v1.regs.interrupts }, ..v1.regs },
                ..v1
            },
            PollResult::Resume,
        )
    } else if s.suspend {
        (
            BusView {
                regs: CoreRegisters { interrupts: CoreInterrupts { suspend: false, ..v1.regs.interrupts }, ..v1.regs },
                ..v1
            },
            PollResult::Suspend,
        )
    } else {
        (in_phase(rx_phase(v1)), data_result(v1))
    }
}

proof fn lemma_rx_phase_wf(v: BusView)
    requires
        v.wf(),
    ensures
        rx_phase(v).wf(),
        rx_phase(v).ins == v.ins,
        rx_phase(v).regs == v.regs,
{
    if v.rx_queue.len() > 0 {
        let popped = v.rx_queue.subrange(1, v.rx_queue.len() as int);
        assert forall|i: int| 0 <= i < popped.len() implies #[trigger] popped[i].epnum < 4 by {
            assert(popped[i] == v.rx_queue[i + 1]);
        }
    }
}

impl<USB> UsbBus<USB> {
    fn flush_rx(&mut self)
        ensures
            final(self)@ == (BusView { rx_queue: Seq::empty(), flushes: old(self)@.flushes.push(Flush::Rx), ..old(self)@ }),
            final(self).peripheral == old(self).peripheral,
    {
        self.flushes.push(Flush::Rx);
        self.rx_queue.clear();
        assert(self@.rx_queue =~= Seq::<RxStatus>::empty());
    }

    fn handle_bus_reset(&mut self)
        requires
            old(self)@.wf(),
        ensures
            final(self)@ == after_bus_reset(old(self)@),
            final(self)@.wf(),
            final(self).peripheral == old(self).peripheral,
    {
        self.regs.interrupts.reset = false;
        self.deconfigure_all();
        self.flush_rx();
    }

    /// Handles the head RX status entry; returns the OUT and SETUP bits it
    /// marks.
    fn drain_rx(&mut self) -> (r: (u16, u16))
        requires
            old(self)@.wf(),
        ensures
            final(self)@ == rx_phase(old(self)@),
            r == (rx_bit(old(self)@, PKTSTS_OUT_RECEIVED), rx_bit(old(self)@, PKTSTS_SETUP_RECEIVED)),
            final(self).peripheral == old(self).peripheral,
    {
        let ghost v = self@;
        if self.rx_queue.len() == 0 {
            return (0, 0);
        }
        let e = self.rx_queue[0];
        let n = e.epnum as usize;
        assert(v.rx_queue[0].epnum < 4);
        let mut ep_out: u16 = 0;
        let mut ep_setup: u16 = 0;
        if e.status == PKTSTS_OUT_RECEIVED {
            ep_out = 1u16 << (e.epnum as u16);
        } else if e.status == PKTSTS_SETUP_RECEIVED {
            if self.endpoints_in[n].pending_packets != 0 {
                self.flushes.push(Flush::Tx(e.epnum));
            }
            ep_setup = 1u16 << (e.epnum as u16);
        } else if e.status == PKTSTS_OUT_COMPLETE || e.status == PKTSTS_SETUP_COMPLETE {
            let mut ep = self.endpoints_out[n];
            ep.armed = true;
            self.endpoints_out.set(n, ep);
            self.rx_queue.remove(0);
        } else {
            self.rx_queue.remove(0);
        }
        if e.status == PKTSTS_OUT_RECEIVED || e.status == PKTSTS_SETUP_RECEIVED {
            if self.endpoints_out[n].state == EndpointBufferState::Empty {
                self.rx_queue.remove(0);
                let mut ep = self.endpoints_out[n];
                let _ = ep.fill_from_fifo(e.byte_count, e.status == PKTSTS_SETUP_RECEIVED);
                self.endpoints_out.set(n, ep);
            }
        }
        assert(self@.rx_queue =~= rx_phase(v).rx_queue);
        assert(self@.outs =~= rx_phase(v).outs);
        (ep_out, ep_setup)
    }

    /// Acknowledges completed IN transfers; returns their bits.
    fn collect_in_complete(&mut self) -> (r: u16)
        requires
            old(self)@.wf(),
        ensures
            final(self)@ == in_phase(old(self)@),
            r == in_complete_mask(old(self)@),
            final(self).peripheral == old(self).peripheral,
    {
        let ghost v = self@;
        if !self.regs.interrupts.in_endpoint {
            return 0;
        }
        let mut mask: u16 = 0;
        let mut i: usize = 0;
        while i < 4
            invariant
                i <= 4,
                v.wf(),
                v.regs.interrupts.in_endpoint,
                self.endpoints_in@.len() == 4,
                mask == complete_bits(v.ins, i as int),
                forall|j: int| 0 <= j < i ==> #[trigger] self.endpoints_in@[j] == (EndpointIn {
                    transfer_complete: v.ins[j].transfer_complete && !v.ins[j].initialized,
                    ..v.ins[j]
                }),
                forall|j: int| i <= j < 4 ==> #[trigger] self.endpoints_in@[j] == v.ins[j],
                self@ == (BusView { ins: self@.ins, ..v }),
                self.peripheral == old(self).peripheral,
            decreases 4 - i,
        {
            let mut ep = self.endpoints_in[i];
            proof {
                lemma_or_assoc(mask, 0, 0);
            }
            if ep.initialized && ep.transfer_complete {
                ep.transfer_complete = false;
                self.endpoints_in.set(i, ep);
                mask = mask | (1u16 << (i as u16));
            }
            i = i + 1;
        }
        assert(self@.ins =~= in_phase(v).ins);
        mask
    }

    /// Bits of the OUT endpoints in use whose buffers hold an OUT packet
    /// and a SETUP packet.
    fn collect_buffered(&self) -> (r: (u16, u16))
        requires
            self@.wf(),
        ensures
            r == (state_bits(self@.outs, EndpointBufferState::DataOut, 4), state_bits(
                self@.outs,
                EndpointBufferState::DataSetup,
                4,
            )),
    {
        let mut ep_out: u16 = 0;
        let mut ep_setup: u16 = 0;
        let mut i: usize = 0;
        while i < 4
            invariant
                i <= 4,
                self@.wf(),
                ep_out == state_bits(self@.outs, EndpointBufferState::DataOut, i as int),
                ep_setup == state_bits(self@.outs, EndpointBufferState::DataSetup, i as int),
            decreases 4 - i,
        {
            let ep = self.endpoints_out[i];
            proof {
                lemma_or_assoc(ep_out, 0, 0);
                lemma_or_assoc(ep_setup, 0, 0);
            }
            if ep.initialized {
                match ep.state {
                    EndpointBufferState::DataOut => {
                        ep_out = ep_out | (1u16 << (i as u16));
                    },
                    EndpointBufferState::DataSetup => {
                        ep_setup = ep_setup | (1u16 << (i as u16));
                    },
                    EndpointBufferState::Empty => {},
                }
            }
            i = i + 1;
        }
        (ep_out, ep_setup)
    }

    fn poll_data(&mut self) -> (r: PollResult)
        requires
            old(self)@.wf(),
        ensures
            final(self)@ == in_phase(rx_phase(old(self)@)),
            final(self)@.wf(),
            r == data_result(old(self)@),
            final(self).peripheral == old(self).peripheral,
    {
        let ghost v = self@;
        proof {
            lemma_rx_phase_wf(v);
        }
        let (rx_out, rx_setup) = self.drain_rx();
        let ep_in_complete = self.collect_in_complete();
        let (buf_out, buf_setup) = self.collect_buffered();
        let ep_out = rx_out | buf_out;
        let ep_setup = rx_setup | buf_setup;
        if (ep_in_complete | ep_out | ep_setup) != 0 {
            PollResult::Data { ep_out, ep_in_complete, ep_setup }
        } else {
            PollResult::NoEvent
        }
    }

    /// Reads the core interrupt state once, acknowledges what it handles and
    /// reports the first event by priority: a bus reset tears the endpoints
    /// down and flushes the RX FIFO without ending the pass; then enumeration
    /// done reports `Reset`, wakeup `Resume`, suspend `Suspend`; otherwise
    /// the data pass reports the endpoints with received OUT or SETUP
    /// packets and completed IN transfers, or `NoEvent`.
    pub fn poll(&mut self) -> (r: PollResult)
        requires
            old(self)@.wf(),
        ensures
            final(self)@ == poll_step(old(self)@).0,
            r == poll_step(old(self)@).1,
            final(self)@.wf(),
            final(self).peripheral == old(self).peripheral,
    {
        let s = self.regs.interrupts;
        if s.reset {
            self.handle_bus_reset();
        }
        if s.enum_done {
            self.regs.interrupts.enum_done = false;
            PollResult::Reset
        } else if s.wakeup {
            self.regs.interrupts.wakeup = false;
            PollResult::Resume
        } else if s.suspend {
            self.regs.interrupts.suspend = false;
            PollResult::Suspend
        } else {
            self.poll_data()
        }
    }
}

/// Nothing is pending: no interrupt bit, no status entry and no buffered
/// packet in an endpoint in use.
pub open spec fn quiet(v: BusView) -> bool {
    &&& v.regs.interrupts == CoreInterrupts {
        reset: false,
        enum_done: false,
        wakeup: false,
        suspend: false,
        in_endpoint: false,
    }
    &&& v.rx_queue.len() == 0
    &&& forall|k: int| 0 <= k < 4 ==> !((#[trigger] v.outs[k]).initialized && v.outs[k].state != EndpointBufferState::Empty)
}

proof fn lemma_bits(a: u16, b: u16, i: u16, k: u16)
    requires
        i < 16,
        k < 16,
    ensures
        has_bit16(a | b, k) <==> has_bit16(a, k) || has_bit16(b, k),
        has_bit16(1u16 << i, k) <==> i == k,
        !has_bit16(0u16, k),
        has_bit16(a, k) ==> a != 0,
        (a | b == 0) <==> (a == 0 && b == 0),
{
    assert(((a | b) & (1u16 << k) != 0) <==> (a & (1u16 << k) != 0 || b & (1u16 << k) != 0)) by (bit_vector);
    assert(((1u16 << i) & (1u16 << k) != 0) <==> i == k) by (bit_vector)
        requires
            i < 16,
            k < 16,
    ;
    assert(0u16 & (1u16 << k) == 0) by (bit_vector);
    assert((a | b == 0) <==> (a == 0 && b == 0)) by (bit_vector);
}

proof fn lemma_state_bits(outs: Seq<EndpointOut>, st: EndpointBufferState, i: int, k: int)
    requires
        0 <= k < i <= 4,
    ensures
        has_bit16(state_bits(outs, st, i), k as u16) <==> outs[k].initialized && outs[k].state == st,
    decreases i,
{
    let b = outs[i - 1].initialized && outs[i - 1].state == st;
    lemma_bits(state_bits(outs, st, i - 1), bit_if(b, i - 1), (i - 1) as u16, k as u16);
    if k < i - 1 {
        lemma_state_bits(outs, st, i - 1, k);
    } else {
        lemma_state_bits_zero_above(outs, st, i - 1, k);
    }
}

proof fn lemma_state_bits_zero_above(outs: Seq<EndpointOut>, st: EndpointBufferState, i: int, k: int)
    requires
        0 <= i <= k < 4,
    ensures
        !has_bit16(state_bits(outs, st, i), k as u16),
    decreases i,
{
    if i > 0 {
        let b = outs[i - 1].initialized && outs[i - 1].state == st;
        lemma_bits(state_bits(outs, st, i - 1), bit_if(b, i - 1), (i - 1) as u16, k as u16);
        lemma_state_bits_zero_above(outs, st, i - 1, k);
    } else {
        lemma_bits(0, 0, 0, k as u16);
    }
}

proof fn lemma_state_bits_none(outs: Seq<EndpointOut>, st: EndpointBufferState, i: int)
    requires
        0 <= i <= 4,
        forall|k: int| 0 <= k < i ==> !((#[trigger] outs[k]).initialized && outs[k].state == st),
    ensures
        state_bits(outs, st, i) == 0,
    decreases i,
{
    if i > 0 {
        lemma_state_bits_none(outs, st, i - 1);
        lemma_or_assoc(0, 0, 0);
    }
}

/// With nothing pending, `poll` changes nothing and reports `NoEvent`; so
/// two calls in a row both report `NoEvent`.
pub proof fn lemma_poll_quiet(v: BusView)
    requires
        v.wf(),
        quiet(v),
    ensures
        poll_step(v) == (v, PollResult::NoEvent),
        poll_step(poll_step(v).0) == (v, PollResult::NoEvent),
{
    lemma_state_bits_none(v.outs, EndpointBufferState::DataOut, 4);
    lemma_state_bits_none(v.outs, EndpointBufferState::DataSetup, 4);
    lemma_or_assoc(0, 0, 0);
    assert(data_result(v) == PollResult::NoEvent);
}

/// While an OUT endpoint in use holds an unread packet, `poll` keeps its
/// buffer as it is and reports the endpoint in the OUT or SETUP mask, as the
/// buffer's state says; a status entry for a packet to that endpoint is
/// left in the queue, not drained. Interrupt bits are left as they were, so
/// the same holds of the next call.
pub proof fn lemma_backpressure(v: BusView, k: int)
    requires
        v.wf(),
        0 <= k < 4,
        v.outs[k].initialized,
        v.outs[k].state != EndpointBufferState::Empty,
        !v.regs.interrupts.reset,
        !v.regs.interrupts.enum_done,
        !v.regs.interrupts.wakeup,
        !v.regs.interrupts.suspend,
    ensures
        poll_step(v).0.wf(),
        poll_step(v).0.regs.interrupts == v.regs.interrupts,
        poll_step(v).0.outs[k].initialized,
        poll_step(v).0.outs[k].state == v.outs[k].state,
        poll_step(v).0.outs[k].len == v.outs[k].len,
        v.rx_queue.len() > 0 && v.rx_queue[0].epnum == k && (v.rx_queue[0].status == PKTSTS_OUT_RECEIVED
            || v.rx_queue[0].status == PKTSTS_SETUP_RECEIVED) ==> poll_step(v).0.rx_queue == v.rx_queue,
        poll_step(v).1 matches PollResult::Data { ep_out, ep_setup, .. } && (v.outs[k].state
            == EndpointBufferState::DataOut ==> has_bit16(ep_out, k as u16)) && (v.outs[k].state
            == EndpointBufferState::DataSetup ==> has_bit16(ep_setup, k as u16)),
{
    lemma_rx_phase_wf(v);
    let w = rx_phase(v);
    assert(w.outs[k].initialized && w.outs[k].state == v.outs[k].state && w.outs[k].len == v.outs[k].len);
    let st = v.outs[k].state;
    lemma_state_bits(w.outs, st, 4, k);
    let rb = if st == EndpointBufferState::DataOut {
        rx_bit(v, PKTSTS_OUT_RECEIVED)
    } else {
        rx_bit(v, PKTSTS_SETUP_RECEIVED)
    };
    lemma_bits(rb, state_bits(w.outs, st, 4), 0, k as u16);
    lemma_bits(in_complete_mask(v), out_mask(v), 0, k as u16);
    lemma_bits(in_complete_mask(v) | out_mask(v), setup_mask(v), 0, k as u16);
    assert(in_phase(w).outs == w.outs);
}

/// A reset and an enumeration-done bit in the same snapshot report `Reset`.
pub proof fn lemma_reset_before_data(v: BusView)
    requires
        v.regs.interrupts.reset,
        v.regs.interrupts.enum_done,
    ensures
        poll_step(v).1 == PollResult::Reset,
        poll_step(v).0.regs.interrupts.enum_done == false,
        poll_step(v).0.regs.interrupts.reset == false,
{
}

/// Core interrupts that `poll` handles: reset, enumeration done, suspend,
/// wakeup, the IN endpoint summary and RX FIFO non-empty.
pub const CORE_INTERRUPTS: u32 = GINTMSK_USBRST | GINTMSK_ENUMDNE | GINTMSK_USBSUSP | GINTMSK_WUI
    | GINTMSK_IEPINT | GINTMSK_RXFLVL;

/// USB turnaround time of a full-speed core, in PHY clocks.
pub const TURNAROUND_FS: u8 = 6;
/// USB turnaround time of a high-speed core, in PHY clocks.
pub const TURNAROUND_HS: u8 = 9;

/// `v` with the core brought up in device mode and connected.
pub open spec fn enabled(v: BusView) -> BusView {
    BusView {
        regs: CoreRegisters {
            clock_enabled: true,
            device_mode: true,
            turnaround_time: if v.high_speed {
                TURNAROUND_HS
            } else {
                TURNAROUND_FS
            },
            vbus_sensing: false,
            phy_clock_stopped: false,
            soft_disconnect: false,
            full_speed: true,
            in_transfer_irq: true,
            core_interrupt_mask: CORE_INTERRUPTS,
            global_interrupt: true,
            transceiver_powered: true,
            interrupts: CoreInterrupts {
                reset: false,
                enum_done: false,
                wakeup: false,
                suspend: false,
                in_endpoint: false,
            },
            ..v.regs
        },
        ..v
    }
}

impl<USB> UsbBus<USB> {
    /// A fresh endpoint number allocator for this bus.
    pub fn create_allocator(&self) -> (r: EndpointAllocator)
        ensures
            r.wf(),
            r.in_map() == 0,
            r.out_map() == 0,
    {
        EndpointAllocator::new()
    }

    /// Brings the core up in device mode: clock on, device mode forced,
    /// turnaround time for the variant, VBUS sensing off, PHY clock on,
    /// full speed, the interrupts `poll` needs unmasked and stale ones
    /// cleared, the transceiver powered and the device connected.
    pub fn enable(&mut self)
        ensures
            final(self)@ == enabled(old(self)@),
            final(self).peripheral == old(self).peripheral,
    {
        self.regs.clock_enabled = true;
        self.regs.device_mode = true;
        self.regs.turnaround_time = if self.high_speed {
            TURNAROUND_HS
        } else {
            TURNAROUND_FS
        };
        self.regs.vbus_sensing = false;
        self.regs.phy_clock_stopped = false;
        self.regs.soft_disconnect = true;
        self.regs.full_speed = true;
        self.regs.in_transfer_irq = true;
        self.regs.core_interrupt_mask = CORE_INTERRUPTS;
        self.regs.interrupts = CoreInterrupts {
            reset: false,
            enum_done: false,
            wakeup: false,
            suspend: false,
            in_endpoint: false,
        };
        self.regs.global_interrupt = true;
        self.regs.transceiver_powered = true;
        self.regs.soft_disconnect = false;
    }

    /// Brings the endpoints up again and clears the device address: a new
    /// enumeration starts unaddressed. A FIFO layout that does not fit is
    /// refused with nothing changed.
    pub fn reset(&mut self) -> (r: Result<(), FifoOverflow>)
        requires
            old(self)@.wf(),
        ensures
            final(self).peripheral == old(self).peripheral,
            fifo_top(old(self)@) <= old(self)@.fifo_depth_words ==> r is Ok && final(self)@ == (BusView {
                regs: CoreRegisters { device_address: 0, ..configured(old(self)@).regs },
                ..configured(old(self)@)
            }),
            fifo_top(old(self)@) > old(self)@.fifo_depth_words ==> r == Err::<(), FifoOverflow>(
                FifoOverflow { needed: fifo_top(old(self)@) as u32 },
            ) && final(self)@ == old(self)@,
    {
        self.configure_all()?;
        self.regs.device_address = 0;
        Ok(())
    }

    /// Writes the 7-bit device address.
    pub fn set_device_address(&mut self, addr: u8)
        ensures
            final(self)@ == (BusView {
                regs: CoreRegisters { device_address: addr & 0x7f, ..old(self)@.regs },
                ..old(self)@
            }),
            final(self).peripheral == old(self).peripheral,
    {
        self.regs.device_address = addr & 0x7f;
    }

    /// Sets or clears the stall of an endpoint; numbers from 4 up are
    /// ignored.
    pub fn set_stalled(&mut self, ep_addr: EndpointAddress, stalled: bool)
        requires
            old(self)@.wf(),
        ensures
            final(self).peripheral == old(self).peripheral,
            final(self)@ == ({
                let v = old(self)@;
                let n = address_index(ep_addr) as int;
                if n >= 4 {
                    v
                } else if address_is_in(ep_addr) {
                    BusView { ins: v.ins.update(n, EndpointIn { stalled, ..v.ins[n] }), ..v }
                } else {
                    BusView { outs: v.outs.update(n, EndpointOut { stalled, ..v.outs[n] }), ..v }
                }
            }),
    {
        let n = ep_addr.index();
        if n >= 4 {
            return;
        }
        if ep_addr.is_in() {
            let mut ep = self.endpoints_in[n];
            ep.stalled = stalled;
            self.endpoints_in.set(n, ep);
        } else {
            let mut ep = self.endpoints_out[n];
            ep.stalled = stalled;
            self.endpoints_out.set(n, ep);
        }
    }

    /// Whether an endpoint is stalled; numbers from 4 up cannot exist and
    /// report stalled.
    pub fn is_stalled(&self, ep_addr: EndpointAddress) -> (r: bool)
        requires
            self@.wf(),
        ensures
            r == ({
                let n = address_index(ep_addr) as int;
                if n >= 4 {
                    true
                } else if address_is_in(ep_addr) {
                    self@.ins[n].stalled
                } else {
                    self@.outs[n].stalled
                }
            }),
    {
        let n = ep_addr.index();
        if n >= 4 {
            return true;
        }
        if ep_addr.is_in() {
            self.endpoints_in[n].stalled
        } else {
            self.endpoints_out[n].stalled
        }
    }

    /// Nothing to do beyond what `poll` acknowledges.
    pub fn suspend(&mut self)
        ensures
            *final(self) == *old(self),
    {
    }

    /// Nothing to do beyond what `poll` acknowledges.
    pub fn resume(&mut self)
        ensures
            *final(self) == *old(self),
    {
    }
}

} // verus!
