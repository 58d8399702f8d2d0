use otg_bus::bus::{
    CoreInterrupts, FifoOverflow, Flush, PollResult, RxStatus, UsbBus, CORE_INTERRUPTS,
    FIFO_DEPTH_WORDS_FS, FIFO_DEPTH_WORDS_HS,
};
use otg_bus::endpoint::{EndpointBufferState, EndpointOut, FillError};
use usb_device::endpoint::EndpointAddress;
use usb_device::UsbDirection;

fn fs_bus(rx_words: u16) -> UsbBus<u8> {
    UsbBus::new(7u8, false, FIFO_DEPTH_WORDS_FS, rx_words)
}

fn no_irq() -> CoreInterrupts {
    CoreInterrupts {
        reset: false,
        enum_done: false,
        wakeup: false,
        suspend: false,
        in_endpoint: false,
    }
}

fn with_ep0(bus: &mut UsbBus<u8>) {
    bus.endpoints_in[0].initialize(16);
    bus.endpoints_out[0].initialize(64);
}

#[test]
fn free_returns_peripheral() {
    assert_eq!(fs_bus(0).free(), 7u8);
}

#[test]
fn configure_all_lays_out_fifos() {
    let mut bus = fs_bus(40);
    bus.endpoints_in[0].initialize(8);
    bus.endpoints_in[1].initialize(32);
    bus.endpoints_out[0].initialize(64);
    bus.rx_queue.push(RxStatus { epnum: 0, byte_count: 8, status: 0x02 });
    assert_eq!(bus.configure_all(), Ok(()));
    assert_eq!(bus.regs.rx_fifo_size, 60);
    let layout: Vec<(u32, u32)> = bus
        .endpoints_in
        .iter()
        .map(|e| (e.tx_fifo_start, e.tx_fifo_depth))
        .collect();
    assert_eq!(layout, vec![(60, 16), (76, 32), (108, 16), (124, 16)]);
    assert_eq!(bus.flushes, vec![Flush::All]);
    assert!(bus.rx_queue.is_empty());
    assert_eq!(bus.regs.in_irq_mask, 0b0011);
    assert_eq!(bus.regs.out_irq_mask, 0b0001);
    assert!(bus.endpoints_in[0].configured && bus.endpoints_in[1].configured);
    assert!(!bus.endpoints_in[2].configured);
    assert!(bus.endpoints_out[0].configured && !bus.endpoints_out[1].configured);
}

#[test]
fn configure_all_high_speed_headroom() {
    let mut bus: UsbBus<u8> = UsbBus::new(0u8, true, FIFO_DEPTH_WORDS_HS, 100);
    assert_eq!(bus.configure_all(), Ok(()));
    assert_eq!(bus.regs.rx_fifo_size, 130);
    assert_eq!(bus.endpoints_in[3].tx_fifo_start, 130 + 48);
}

#[test]
fn configure_all_exact_fit() {
    // 256 + 20 + 4 * 16 = 340 > 320; 236 + 20 + 64 = 320 fits.
    let mut bus = fs_bus(236);
    assert_eq!(bus.configure_all(), Ok(()));
    assert_eq!(bus.endpoints_in[3].tx_fifo_start + bus.endpoints_in[3].tx_fifo_depth, 320);
}

#[test]
fn configure_all_overflow_writes_nothing() {
    let mut bus = fs_bus(237);
    bus.endpoints_in[0].initialize(8);
    assert_eq!(bus.configure_all(), Err(FifoOverflow { needed: 321 }));
    assert_eq!(bus.regs.rx_fifo_size, 0);
    assert!(bus.flushes.is_empty());
    assert!(!bus.endpoints_in[0].configured);
    assert_eq!(bus.endpoints_in[0].tx_fifo_depth, 0);
}

#[test]
fn deconfigure_all_tears_down() {
    let mut bus = fs_bus(0);
    with_ep0(&mut bus);
    bus.configure_all().unwrap();
    bus.deconfigure_all();
    assert_eq!(bus.regs.in_irq_mask, 0);
    assert_eq!(bus.regs.out_irq_mask, 0);
    assert!(!bus.endpoints_in[0].configured);
    assert!(!bus.endpoints_out[0].configured);
}

#[test]
fn quiet_poll_twice_is_none() {
    let mut bus = fs_bus(0);
    with_ep0(&mut bus);
    assert_eq!(bus.poll(), PollResult::NoEvent);
    assert_eq!(bus.poll(), PollResult::NoEvent);
    assert!(bus.flushes.is_empty());
    assert_eq!(bus.regs.interrupts, no_irq());
}

#[test]
fn reset_and_enum_done_report_reset() {
    let mut bus = fs_bus(0);
    with_ep0(&mut bus);
    bus.configure_all().unwrap();
    bus.regs.interrupts = CoreInterrupts { reset: true, enum_done: true, suspend: true, ..no_irq() };
    bus.rx_queue.push(RxStatus { epnum: 0, byte_count: 8, status: 0x02 });
    assert_eq!(bus.poll(), PollResult::Reset);
    assert_eq!(bus.flushes, vec![Flush::All, Flush::Rx]);
    assert!(bus.rx_queue.is_empty());
    assert!(!bus.endpoints_in[0].configured);
    assert_eq!(bus.regs.interrupts, CoreInterrupts { suspend: true, ..no_irq() });
    assert_eq!(bus.poll(), PollResult::Suspend);
    assert_eq!(bus.poll(), PollResult::NoEvent);
}

#[test]
fn wakeup_before_suspend() {
    let mut bus = fs_bus(0);
    bus.regs.interrupts = CoreInterrupts { wakeup: true, suspend: true, ..no_irq() };
    assert_eq!(bus.poll(), PollResult::Resume);
    assert_eq!(bus.poll(), PollResult::Suspend);
}

#[test]
fn reset_alone_falls_through_to_data() {
    let mut bus = fs_bus(0);
    with_ep0(&mut bus);
    bus.regs.interrupts = CoreInterrupts { reset: true, ..no_irq() };
    assert_eq!(bus.poll(), PollResult::NoEvent);
    assert_eq!(bus.flushes, vec![Flush::Rx]);
    assert!(!bus.regs.interrupts.reset);
}

#[test]
fn setup_with_stale_in_flushes_tx() {
    let mut bus = fs_bus(0);
    with_ep0(&mut bus);
    bus.endpoints_in[0].pending_packets = 1;
    bus.rx_queue.push(RxStatus { epnum: 0, byte_count: 8, status: 0x06 });
    let r = bus.poll();
    assert_eq!(bus.flushes, vec![Flush::Tx(0)]);
    assert_eq!(r, PollResult::Data { ep_out: 0, ep_in_complete: 0, ep_setup: 1 });
    assert_eq!(bus.endpoints_out[0].state, EndpointBufferState::DataSetup);
    assert_eq!(bus.endpoints_out[0].len, 8);
    assert!(bus.rx_queue.is_empty());
}

#[test]
fn setup_without_pending_in_does_not_flush() {
    let mut bus = fs_bus(0);
    with_ep0(&mut bus);
    bus.rx_queue.push(RxStatus { epnum: 0, byte_count: 8, status: 0x06 });
    assert_eq!(bus.poll(), PollResult::Data { ep_out: 0, ep_in_complete: 0, ep_setup: 1 });
    assert!(bus.flushes.is_empty());
}

#[test]
fn out_packet_is_drained_and_reported() {
    let mut bus = fs_bus(0);
    bus.endpoints_out[2].initialize(64);
    bus.rx_queue.push(RxStatus { epnum: 2, byte_count: 10, status: 0x02 });
    assert_eq!(bus.poll(), PollResult::Data { ep_out: 0b100, ep_in_complete: 0, ep_setup: 0 });
    assert_eq!(bus.endpoints_out[2].state, EndpointBufferState::DataOut);
    assert_eq!(bus.endpoints_out[2].len, 10);
    // Reported again until the consumer reads it.
    assert_eq!(bus.poll(), PollResult::Data { ep_out: 0b100, ep_in_complete: 0, ep_setup: 0 });
    assert_eq!(bus.endpoints_out[2].take_packet(), Some((10, false)));
    assert_eq!(bus.poll(), PollResult::NoEvent);
}

#[test]
fn full_buffer_holds_back_the_entry() {
    let mut bus = fs_bus(0);
    bus.endpoints_out[1].initialize(64);
    bus.rx_queue.push(RxStatus { epnum: 1, byte_count: 4, status: 0x02 });
    bus.rx_queue.push(RxStatus { epnum: 1, byte_count: 5, status: 0x02 });
    assert_eq!(bus.poll(), PollResult::Data { ep_out: 0b10, ep_in_complete: 0, ep_setup: 0 });
    assert_eq!(bus.rx_queue.len(), 1);
    for _ in 0..3 {
        assert_eq!(bus.poll(), PollResult::Data { ep_out: 0b10, ep_in_complete: 0, ep_setup: 0 });
        assert_eq!(bus.rx_queue.len(), 1);
        assert_eq!(bus.endpoints_out[1].len, 4);
    }
    assert_eq!(bus.endpoints_out[1].take_packet(), Some((4, false)));
    assert_eq!(bus.poll(), PollResult::Data { ep_out: 0b10, ep_in_complete: 0, ep_setup: 0 });
    assert!(bus.rx_queue.is_empty());
    assert_eq!(bus.endpoints_out[1].len, 5);
}

#[test]
fn completion_entries_rearm_and_pop() {
    let mut bus = fs_bus(0);
    bus.rx_queue.push(RxStatus { epnum: 3, byte_count: 0, status: 0x03 });
    bus.rx_queue.push(RxStatus { epnum: 1, byte_count: 0, status: 0x04 });
    assert_eq!(bus.poll(), PollResult::NoEvent);
    assert!(bus.endpoints_out[3].armed);
    assert_eq!(bus.poll(), PollResult::NoEvent);
    assert!(bus.endpoints_out[1].armed);
    assert!(bus.rx_queue.is_empty());
}

#[test]
fn unknown_status_is_popped() {
    let mut bus = fs_bus(0);
    bus.rx_queue.push(RxStatus { epnum: 2, byte_count: 0, status: 0x01 });
    assert_eq!(bus.poll(), PollResult::NoEvent);
    assert!(bus.rx_queue.is_empty());
}

#[test]
fn in_complete_is_acknowledged_once() {
    let mut bus = fs_bus(0);
    bus.endpoints_in[1].initialize(16);
    bus.endpoints_in[1].transfer_complete = true;
    bus.endpoints_in[2].transfer_complete = true;
    bus.regs.interrupts.in_endpoint = true;
    assert_eq!(bus.poll(), PollResult::Data { ep_out: 0, ep_in_complete: 0b10, ep_setup: 0 });
    assert!(!bus.endpoints_in[1].transfer_complete);
    assert!(bus.endpoints_in[2].transfer_complete);
    assert_eq!(bus.poll(), PollResult::NoEvent);
}

#[test]
fn oversize_packet_is_dropped_from_buffer() {
    let mut bus = fs_bus(0);
    bus.endpoints_out[0].initialize(8);
    bus.rx_queue.push(RxStatus { epnum: 0, byte_count: 9, status: 0x02 });
    assert_eq!(bus.poll(), PollResult::Data { ep_out: 1, ep_in_complete: 0, ep_setup: 0 });
    assert_eq!(bus.endpoints_out[0].state, EndpointBufferState::Empty);
    assert!(bus.rx_queue.is_empty());
}

#[test]
fn fill_errors() {
    let mut ep = EndpointOut::new();
    ep.initialize(4);
    assert_eq!(ep.fill_from_fifo(5, false), Err(FillError::TooLarge));
    assert_eq!(ep.fill_from_fifo(4, true), Ok(()));
    assert_eq!(ep.fill_from_fifo(1, false), Err(FillError::Busy));
    assert_eq!(ep.take_packet(), Some((4, true)));
    assert_eq!(ep.take_packet(), None);
}

#[test]
fn enable_programs_device_mode() {
    let mut bus = fs_bus(0);
    bus.regs.interrupts.wakeup = true;
    bus.enable();
    assert!(bus.regs.device_mode && bus.regs.clock_enabled && bus.regs.global_interrupt);
    assert_eq!(bus.regs.turnaround_time, 6);
    assert!(!bus.regs.vbus_sensing && !bus.regs.soft_disconnect);
    assert_eq!(bus.regs.core_interrupt_mask, CORE_INTERRUPTS);
    assert_eq!(CORE_INTERRUPTS, 0x8004_3810);
    assert_eq!(bus.regs.interrupts, no_irq());
    let mut hs: UsbBus<u8> = UsbBus::new(0u8, true, FIFO_DEPTH_WORDS_HS, 0);
    hs.enable();
    assert_eq!(hs.regs.turnaround_time, 9);
}

#[test]
fn reset_clears_address() {
    let mut bus = fs_bus(0);
    with_ep0(&mut bus);
    bus.set_device_address(0x85);
    assert_eq!(bus.regs.device_address, 0x05);
    assert_eq!(bus.reset(), Ok(()));
    assert_eq!(bus.regs.device_address, 0);
    assert!(bus.endpoints_out[0].configured);
    let mut big = fs_bus(300);
    big.set_device_address(9);
    assert_eq!(big.reset(), Err(FifoOverflow { needed: 384 }));
    assert_eq!(big.regs.device_address, 9);
}

#[test]
fn stall_control() {
    let mut bus = fs_bus(0);
    let in1 = EndpointAddress::from_parts(1, UsbDirection::In);
    let out1 = EndpointAddress::from_parts(1, UsbDirection::Out);
    let in5 = EndpointAddress::from_parts(5, UsbDirection::In);
    assert!(!bus.is_stalled(in1));
    bus.set_stalled(in1, true);
    assert!(bus.is_stalled(in1));
    assert!(!bus.is_stalled(out1));
    assert!(bus.endpoints_in[1].stalled);
    bus.set_stalled(out1, true);
    bus.set_stalled(in1, false);
    assert!(!bus.is_stalled(in1));
    assert!(bus.is_stalled(out1));
    assert!(bus.is_stalled(in5));
    bus.set_stalled(in5, false);
    assert!(bus.is_stalled(in5));
}

#[test]
fn suspend_and_resume_change_nothing() {
    let mut bus = fs_bus(0);
    bus.suspend();
    bus.resume();
    assert_eq!(bus.poll(), PollResult::NoEvent);
    let a = bus.create_allocator();
    assert!(!a.is_in_taken(0));
}
