use rustos::keyboard::KeyDecoder;
use rustos::allocator::{get_memory_usage, HEAP_SIZE};
use rustos::e1000::{
    descriptor_done, device_address, enable_bus_master, find_e1000, mac_from_registers,
    mmio_base_from_bar, split_address, RxPlan, TxPlan, BUFFER_SIZE, E1000,
    FALLBACK_MMIO_BASE, TX_CMD,
};
use rustos::interrupts::{controller_ready, mouse_config_byte, pit_divisor_bytes, InterruptIndex, MouseDecoder, MouseEvent};
use rustos::pci::{pci_config_address, pci_device, vendor_present, PciDevice};
use rustos::rtc::{bcd_to_binary, cmos_select, is_update_in_progress, read_rtc, DateTime, RtcRegisters};
use rustos::timer::{TickStream, FRAME_TICKS};
use rustos::window::{Window, WindowAnimState, OPENING_FRAMES};

#[test]
fn interrupt_vectors() {
    assert_eq!(InterruptIndex::Timer.as_u8(), 32);
    assert_eq!(InterruptIndex::Keyboard.as_u8(), 33);
    assert_eq!(InterruptIndex::Mouse.as_u8(), 44);
}

#[test]
fn pit_divisor_for_hundred_hz() {
    // 1193182 / 100 = 11931 = 0x2E9B
    assert_eq!(pit_divisor_bytes(100), (0x9B, 0x2E));
    assert_eq!(pit_divisor_bytes(1193182), (1, 0));
}

#[test]
fn ps2_controller_bytes() {
    assert_eq!(mouse_config_byte(0x00), 0x03);
    assert_eq!(mouse_config_byte(0x20), 0x03);
    assert_eq!(mouse_config_byte(0xFF), 0xDF);
    assert_eq!(mouse_config_byte(0x44), 0x47);
    assert!(controller_ready(0, 0x01));
    assert!(!controller_ready(0, 0x02));
    assert!(controller_ready(1, 0x01));
    assert!(!controller_ready(1, 0x02));
}

#[test]
fn mouse_packet_decodes() {
    let mut d = MouseDecoder::new();
    assert_eq!(d.feed(0xFA), None);
    assert_eq!(d.feed(0x00), None); // bit 3 clear: not a first byte
    assert_eq!(d.feed(0x09), None);
    assert_eq!(d.feed(5), None);
    assert_eq!(d.feed(3), Some(MouseEvent { dx: 5, dy: -3, left: true, right: false }));
    // negative x, negative y on the wire (moves down on screen), right button
    assert_eq!(d.feed(0x3A), None);
    assert_eq!(d.feed(0xFE), None);
    assert_eq!(d.feed(0xFF), Some(MouseEvent { dx: -2, dy: 1, left: false, right: true }));
}

#[test]
fn rtc_helpers() {
    assert_eq!(cmos_select(0x0A), 0x8A);
    assert!(is_update_in_progress(0x80));
    assert!(!is_update_in_progress(0x7F));
    assert_eq!(bcd_to_binary(0x59), 59);
    assert_eq!(bcd_to_binary(0x00), 0);
}

#[test]
fn rtc_bcd_and_twelve_hour() {
    let raw = RtcRegisters { second: 0x30, minute: 0x45, hour: 0x13, day: 0x15, month: 0x06, year: 0x24, register_b: 0 };
    assert_eq!(
        read_rtc(&raw),
        DateTime { year: 2024, month: 6, day: 15, hour: 13, minute: 45, second: 30 }
    );
    let bin = RtcRegisters { second: 30, minute: 45, hour: 23, day: 15, month: 6, year: 24, register_b: 0x06 };
    assert_eq!(
        read_rtc(&bin),
        DateTime { year: 2024, month: 6, day: 15, hour: 23, minute: 45, second: 30 }
    );
    // binary twelve-hour clock: bit 7 marks the afternoon
    let pm = RtcRegisters { second: 0, minute: 0, hour: 0x81, day: 1, month: 1, year: 0, register_b: 0x04 };
    assert_eq!(read_rtc(&pm).hour, 13);
    // BCD conversion runs first and takes bit 7 in as tens
    let bcd_pm = RtcRegisters { second: 0, minute: 0, hour: 0x81, day: 1, month: 1, year: 0, register_b: 0 };
    assert_eq!(read_rtc(&bcd_pm).hour, 81);
}

#[test]
fn pci_helpers() {
    assert_eq!(pci_config_address(0, 3, 0, 0), 0x8000_1800);
    assert_eq!(pci_config_address(1, 2, 3, 0x10), 0x8001_1310);
    assert!(vendor_present(0x100E_8086));
    assert!(!vendor_present(0x0000_FFFF));
    let d = pci_device(0, 3, 0, 0x100E_8086, 0x0200_0000, [0xFEBC_0000, 0, 0, 0, 0, 0]);
    assert_eq!(d.vendor_id, 0x8086);
    assert_eq!(d.device_id, 0x100E);
    assert_eq!(d.class, 2);
    assert_eq!(d.subclass, 0);
    assert_eq!(d.bar0, 0xFEBC_0000);
}

fn dev(vendor: u16, device: u16) -> PciDevice {
    pci_device(0, 0, 0, ((device as u32) << 16) | vendor as u32, 0, [0; 6])
}

#[test]
fn e1000_is_found() {
    let devs = vec![dev(0x8086, 0x1237), dev(0x1234, 0x1111), dev(0x8086, 0x100E), dev(0x8086, 0x100E)];
    assert_eq!(find_e1000(&devs), Some(2));
    assert_eq!(find_e1000(&vec![dev(0x8086, 0x1237)]), None);
}

#[test]
fn e1000_register_helpers() {
    assert_eq!(mmio_base_from_bar(0xFEBC_0004), (0xFEBC_0000, false));
    assert_eq!(mmio_base_from_bar(0x0000_000F), (FALLBACK_MMIO_BASE, true));
    assert_eq!(enable_bus_master(0x0001), 0x0007);
    assert_eq!(mac_from_registers(0x1200_5452, 0x8000_5634), [0x52, 0x54, 0x00, 0x12, 0x34, 0x56]);
    assert_eq!(split_address(0x1_2345_6789), (0x2345_6789, 1));
    assert_eq!(device_address(0x5000, 0x1000), 0x4000);
    assert_eq!(device_address(0x500, 0x1000), 0);
    let e = E1000::new(0xFEB8_0000, [0; 6], 0);
    assert!(e.can_transmit(0));
    assert!(e.can_transmit(1));
    assert!(!e.can_transmit(2));
    assert!(descriptor_done(3));
    assert!(!descriptor_done(2));
}

#[test]
fn e1000_transmit_walks_ring() {
    let mut e = E1000::new(0xFEB8_0000, [1, 2, 3, 4, 5, 6], 0);
    assert_eq!(e.mac_address(), [1, 2, 3, 4, 5, 6]);
    assert_eq!(e.transmit(BUFFER_SIZE + 1, 0), None);
    assert_eq!(e.transmit(60, 2), None);
    assert_eq!(e.tx_index(), 0);
    assert_eq!(e.transmit(60, 0), Some(TxPlan { slot: 0, length: 60, cmd: TX_CMD, tail: 1 }));
    for _ in 1..31 {
        e.transmit(10, 1);
    }
    assert_eq!(e.tx_index(), 31);
    assert_eq!(e.transmit(10, 1), Some(TxPlan { slot: 31, length: 10, cmd: TX_CMD, tail: 0 }));
    assert_eq!(e.tx_index(), 0);
}

#[test]
fn e1000_receive_caps_length() {
    let mut e = E1000::new(0xFEB8_0000, [0; 6], 0);
    assert_eq!(e.receive(0, 100), None);
    assert_eq!(e.receive(1, 100), Some(RxPlan { slot: 0, length: 100, tail: 0 }));
    assert_eq!(e.receive(3, 5000), Some(RxPlan { slot: 1, length: BUFFER_SIZE, tail: 1 }));
    assert_eq!(e.rx_index(), 2);
}

#[test]
fn tick_stream_fires_each_frame() {
    let mut s = TickStream::new(100);
    assert_eq!(s.poll_tick(100 + FRAME_TICKS - 1), None);
    assert_eq!(s.poll_tick(100 + FRAME_TICKS), Some(100 + FRAME_TICKS));
    assert_eq!(s.poll_tick(100 + FRAME_TICKS + 3), None);
}

#[test]
fn memory_usage() {
    assert_eq!(get_memory_usage(1000, 400), (600, HEAP_SIZE));
    assert_eq!(get_memory_usage(10, 40), (0, HEAP_SIZE));
}

#[test]
fn window_opens_after_ninety_frames() {
    let mut w = Window::new(7u32, 10, 20, 300, 200);
    assert_eq!(w.anim_state, WindowAnimState::Opening(0));
    assert_eq!((w.orig_x, w.orig_y, w.orig_w, w.orig_h), (10, 20, 300, 200));
    for _ in 0..OPENING_FRAMES - 1 {
        w.tick_animation();
    }
    assert_eq!(w.anim_state, WindowAnimState::Opening(89));
    w.tick_animation();
    assert_eq!(w.anim_state, WindowAnimState::Open);
    w.tick_animation();
    assert_eq!(w.anim_state, WindowAnimState::Open);
    assert_eq!(w.app, 7);
}

#[test]
fn scancodes_decode_to_characters() {
    let mut k = KeyDecoder::new();
    assert_eq!(k.feed(0x1E), Some('a'));
    assert_eq!(k.feed(0x9E), None);
    assert_eq!(k.feed(0x2A), None); // left Shift down
    assert_eq!(k.feed(0x1E), Some('A'));
    assert_eq!(k.feed(0x02), Some('!'));
    assert_eq!(k.feed(0xAA), None); // left Shift up
    assert_eq!(k.feed(0x1E), Some('a'));
    assert_eq!(k.feed(0x1C), Some('\n'));
    assert_eq!(k.feed(0x0E), Some('\u{8}'));
    assert_eq!(k.feed(0xE0), None); // prefix of an extended key
    assert_eq!(k.feed(0x1C), Some('\n')); // keypad Enter
}

#[test]
fn time_zones_move_the_date() {
    let mut d = DateTime { year: 2023, month: 3, day: 1, hour: 2, minute: 0, second: 0 };
    d.apply_timezone(-5);
    assert_eq!(d, DateTime { year: 2023, month: 2, day: 28, hour: 21, minute: 0, second: 0 });
    let mut e = DateTime { year: 2024, month: 1, day: 1, hour: 0, minute: 1, second: 2 };
    e.apply_timezone(-1);
    assert_eq!(e, DateTime { year: 2023, month: 12, day: 31, hour: 23, minute: 1, second: 2 });
    let mut same = DateTime { year: 2024, month: 6, day: 30, hour: 12, minute: 0, second: 0 };
    same.apply_timezone(0);
    assert_eq!(same, DateTime { year: 2024, month: 6, day: 30, hour: 12, minute: 0, second: 0 });
    let mut odd = DateTime { year: 2024, month: 6, day: 30, hour: 81, minute: 0, second: 0 };
    odd.apply_timezone(9);
    assert_eq!(odd.hour, 81);
}

#[test]
fn decoders_fed_alike_type_alike() {
    let bytes: [u8; 9] = [0x2A, 0x10, 0xAA, 0x10, 0xE0, 0x1C, 0x39, 0x3A, 0x10];
    let mut first = KeyDecoder::new();
    let mut second = KeyDecoder::new();
    let mut typed = Vec::new();
    for b in bytes {
        let c = first.feed(b);
        assert_eq!(c, second.feed(b));
        typed.push(c);
    }
    assert_eq!(
        typed,
        vec![None, Some('Q'), None, Some('q'), None, Some('\n'), Some(' '), None, Some('Q')]
    );
}
