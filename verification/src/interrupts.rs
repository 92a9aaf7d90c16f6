use vstd::prelude::*;

verus! {

/// The first vector of the primary and of the secondary interrupt controller.
pub const PIC_1_OFFSET: u8 = 32;
pub const PIC_2_OFFSET: u8 = PIC_1_OFFSET + 8;

/// The hardware interrupts the kernel handles.
#[derive(PartialEq, Eq, Structural, Clone, Copy, Debug)]
pub enum InterruptIndex {
    Timer,
    Keyboard,
    Mouse,
}

impl InterruptIndex {
    /// The vector: the timer is the primary controller's first line, the
    /// keyboard the next, the mouse line 12.
    pub open spec fn vector(self) -> u8 {
        match self {
            InterruptIndex::Timer => PIC_1_OFFSET,
            InterruptIndex::Keyboard => (PIC_1_OFFSET + 1) as u8,
            InterruptIndex::Mouse => (PIC_1_OFFSET + 12) as u8,
        }
    }

    pub fn as_u8(self) -> (r: u8)
        ensures
            r == self.vector(),
    {
        match self {
            InterruptIndex::Timer => PIC_1_OFFSET,
            InterruptIndex::Keyboard => PIC_1_OFFSET + 1,
            InterruptIndex::Mouse => PIC_1_OFFSET + 12,
        }
    }
}

/// The programmable interval timer's input clock, in Hz.
pub const PIT_BASE_HZ: u32 = 1_193_182;

/// The divisor for a timer `frequency` as the low and high byte written to
/// the channel 0 data port.
pub fn pit_divisor_bytes(frequency: u32) -> (r: (u8, u8))
    requires
        frequency > 0,
    ensures
        r.0 == (PIT_BASE_HZ / frequency) % 256,
        r.1 == (PIT_BASE_HZ / frequency) / 256 % 256,
{
    let divisor: u32 = PIT_BASE_HZ / frequency;
    assert((divisor & 0xFFu32) == divisor % 256) by (bit_vector);
    assert(((divisor >> 8u32) as u8) == divisor / 256 % 256) by (bit_vector);
    ((divisor & 0xFF) as u8, (divisor >> 8) as u8)
}

/// The PS/2 controller's configuration byte with the interrupts of both
/// ports on (bits 0 and 1 set) and the mouse clock running (bit 5 clear);
/// the other bits are kept.
pub fn mouse_config_byte(status: u8) -> (r: u8)
    ensures
        r == (status | 0x03u8) & 0xDFu8,
        r % 2 == 1 && (r / 2) % 2 == 1 && (r / 32) % 2 == 0,
{
    let r = (status | 0x03) & !0x20u8;
    assert(!0x20u8 == 0xDFu8) by (bit_vector);
    assert(r % 2 == 1 && (r / 2) % 2 == 1 && (r / 32) % 2 == 0) by (bit_vector)
        requires r == (status | 0x03u8) & 0xDFu8;
    r
}

/// Whether the PS/2 controller is ready, given its status byte: for
/// `wait_for` 0, a byte waits to be read (bit 0 set); otherwise the input
/// buffer has room for a write (bit 1 clear).
pub fn controller_ready(wait_for: u8, status: u8) -> (r: bool)
    ensures
        r == (if wait_for == 0 { status % 2 == 1 } else { (status / 2) % 2 == 0 }),
{
    assert((status & 1u8) == status % 2) by (bit_vector);
    assert((status & 2u8) == 0u8 <==> (status / 2) % 2 == 0) by (bit_vector);
    if wait_for == 0 {
        (status & 1) == 1
    } else {
        (status & 2) == 0
    }
}

/// A movement of the mouse, with its buttons.
#[derive(PartialEq, Eq, Structural, Clone, Copy, Debug)]
pub struct MouseEvent {
    pub dx: i32,
    pub dy: i32,
    pub left: bool,
    pub right: bool,
}

/// The event of a PS/2 packet: the X and Y moves carry their sign in bits 4
/// and 5 of the first byte, Y grows upwards on the wire and downwards on the
/// screen, and bits 0 and 1 are the left and right buttons.
pub open spec fn packet_event(b0: u8, b1: u8, b2: u8) -> MouseEvent {
    MouseEvent {
        dx: (b1 as int - (if b0 & 0x10 != 0 { 256int } else { 0 })) as i32,
        dy: (-(b2 as int - (if b0 & 0x20 != 0 { 256int } else { 0 }))) as i32,
        left: b0 & 1 != 0,
        right: b0 & 2 != 0,
    }
}

/// Gathers the bytes of PS/2 mouse packets.
pub struct MouseDecoder {
    packet: [u8; 3],
    cycle: u8,
}

/// The decoder's state: which byte comes next and the bytes gathered.
pub open spec fn mouse_step(cycle: u8, packet: Seq<u8>, byte: u8) -> (u8, Seq<u8>, Option<MouseEvent>) {
    if cycle == 0 {
        if byte == 0xFA || byte & 8 != 8 {
            (0, packet, None)
        } else {
            (1, packet.update(0, byte), None)
        }
    } else if cycle == 1 {
        (2, packet.update(1, byte), None)
    } else if cycle == 2 {
        (0, packet.update(2, byte), Some(packet_event(packet[0], packet[1], byte)))
    } else {
        (0, packet, None)
    }
}

impl MouseDecoder {
    pub closed spec fn cycle(self) -> u8 {
        self.cycle
    }

    pub closed spec fn packet(self) -> Seq<u8> {
        self.packet@
    }

    pub fn new() -> (d: Self)
        ensures
            d.cycle() == 0,
            d.packet() == seq![0u8, 0u8, 0u8],
    {
        let d = MouseDecoder { packet: [0, 0, 0], cycle: 0 };
        assert(d.packet() =~= seq![0u8, 0u8, 0u8]);
        d
    }

    /// Takes the next byte from the mouse. A packet starts with a byte that
    /// has bit 3 set (an acknowledge, 0xFA, is skipped); its third byte
    /// completes it and gives the event.
    pub fn feed(&mut self, byte: u8) -> (r: Option<MouseEvent>)
        ensures
            (final(self).cycle(), final(self).packet(), r) == mouse_step(old(self).cycle(), old(self).packet(), byte),
    {
        match self.cycle {
            0 => {
                if byte == 0xFA {
                    None
                } else if (byte & 8) == 8 {
                    self.packet[0] = byte;
                    self.cycle = 1;
                    assert(self.packet@ =~= old(self).packet@.update(0, byte));
                    None
                } else {
                    None
                }
            },
            1 => {
                self.packet[1] = byte;
                self.cycle = 2;
                assert(self.packet@ =~= old(self).packet@.update(1, byte));
                None
            },
            2 => {
                self.packet[2] = byte;
                self.cycle = 0;
                assert(self.packet@ =~= old(self).packet@.update(2, byte));
                let b0 = self.packet[0];
                let mut dx: i32 = self.packet[1] as i32;
                let mut dy: i32 = self.packet[2] as i32;
                if (b0 & 0x10) != 0 {
                    dx = dx - 256;
                }
                if (b0 & 0x20) != 0 {
                    dy = dy - 256;
                }
                dy = -dy;
                let left = (b0 & 1) != 0;
                let right = (b0 & 2) != 0;
                Some(MouseEvent { dx, dy, left, right })
            },
            _ => {
                self.cycle = 0;
                None
            },
        }
    }
}

/// Feeding the three bytes of a packet from the start of a packet gives its
/// event, and the decoder is ready for the next packet.
pub proof fn lemma_packet_round_trip(packet: Seq<u8>, b0: u8, b1: u8, b2: u8)
    requires
        packet.len() == 3,
        b0 != 0xFA,
        b0 & 8 == 8,
    ensures
        ({
            let (c1, p1, e1) = mouse_step(0, packet, b0);
            let (c2, p2, e2) = mouse_step(c1, p1, b1);
            let (c3, p3, e3) = mouse_step(c2, p2, b2);
            &&& e1 is None
            &&& e2 is None
            &&& e3 == Some(packet_event(b0, b1, b2))
            &&& c3 == 0
        }),
{
}

/// A complete packet moves the pointer right by its second byte, or, when
/// bit 4 of its first byte is set (whatever bit 5 holds), by 256 less: a
/// move to the left. On screen it moves down by the negated third byte, or
/// by 256 minus that byte (a move down) when bit 5 is set. So the move is
/// to the left exactly when bit 4 is set and down exactly when bit 5 is set;
/// bits 0 and 1 are the left and right buttons.
pub proof fn law_packet_moves(packet: Seq<u8>, b0: u8, b1: u8, b2: u8)
    requires
        packet.len() == 3,
        b0 != 0xFA,
        (b0 / 8) % 2 == 1,
    ensures
        ({
            let (c1, p1, e1) = mouse_step(0, packet, b0);
            let (c2, p2, e2) = mouse_step(c1, p1, b1);
            let (c3, p3, e3) = mouse_step(c2, p2, b2);
            &&& e3 is Some
            &&& e3->0.dx == (if (b0 / 16) % 2 == 1 { b1 - 256 } else { b1 as int })
            &&& e3->0.dy == (if (b0 / 32) % 2 == 1 { 256 - b2 } else { -(b2 as int) })
            &&& (e3->0.dx < 0 <==> (b0 / 16) % 2 == 1)
            &&& (e3->0.dy > 0 <==> (b0 / 32) % 2 == 1)
            &&& e3->0.left == (b0 % 2 == 1)
            &&& e3->0.right == ((b0 / 2) % 2 == 1)
        }),
{
    assert((b0 & 8u8 == 8u8) <==> (b0 / 8) % 2 == 1) by (bit_vector);
    assert((b0 & 0x10u8 != 0u8) <==> (b0 / 16) % 2 == 1) by (bit_vector);
    assert((b0 & 0x20u8 != 0u8) <==> (b0 / 32) % 2 == 1) by (bit_vector);
    assert((b0 & 1u8 != 0u8) <==> b0 % 2 == 1) by (bit_vector);
    assert((b0 & 2u8 != 0u8) <==> (b0 / 2) % 2 == 1) by (bit_vector);
    lemma_packet_round_trip(packet, b0, b1, b2);
}

} // verus!
