use vstd::prelude::*;
use crate::pci::PciDevice;

verus! {

pub const E1000_VENDOR_ID: u16 = 0x8086;
pub const E1000_DEVICE_ID: u16 = 0x100E;

pub const REG_CTRL: usize = 0x0000;
pub const REG_IMC: usize = 0x00D8;
pub const REG_RCTL: usize = 0x0100;
pub const REG_TCTL: usize = 0x0400;
pub const REG_RDBAL: usize = 0x2800;
pub const REG_RDBAH: usize = 0x2804;
pub const REG_RDLEN: usize = 0x2808;
pub const REG_RDH: usize = 0x2810;
pub const REG_RDT: usize = 0x2818;
pub const REG_TDBAL: usize = 0x3800;
pub const REG_TDBAH: usize = 0x3804;
pub const REG_TDLEN: usize = 0x3808;
pub const REG_TDH: usize = 0x3810;
pub const REG_TDT: usize = 0x3818;
pub const REG_RAL: usize = 0x5400;
pub const REG_RAH: usize = 0x5404;

pub const RX_RING_SIZE: usize = 32;
pub const TX_RING_SIZE: usize = 32;
pub const BUFFER_SIZE: usize = 2048;

/// The descriptor size of both rings, in bytes.
pub const DESC_SIZE: usize = 16;

/// Where the memory-mapped registers are used when the firmware left BAR0
/// unset.
pub const FALLBACK_MMIO_BASE: usize = 0xFEB8_0000;

/// Receive control: enable, accept broadcast.
pub const RCTL_VALUE: u32 = 0x8002;
/// Transmit control: enable, pad short packets.
pub const TCTL_VALUE: u32 = 0x000A;
/// Device control bit "set link up".
pub const CTRL_SLU: u32 = 0x40;
/// Transmit command: report status (bit 3), insert checksum (bit 1), end of
/// packet (bit 0).
pub const TX_CMD: u8 = 0x0B;

/// A receive descriptor.
#[derive(Clone, Copy)]
pub struct RxDesc {
    pub addr: u64,
    pub length: u16,
    pub checksum: u16,
    pub status: u8,
    pub errors: u8,
    pub special: u16,
}

/// A transmit descriptor.
#[derive(Clone, Copy)]
pub struct TxDesc {
    pub addr: u64,
    pub length: u16,
    pub cso: u8,
    pub cmd: u8,
    pub status: u8,
    pub css: u8,
    pub special: u16,
}

/// The index of the first Intel 82540EM among `devices`.
pub fn find_e1000(devices: &Vec<PciDevice>) -> (r: Option<usize>)
    ensures
        match r {
            Some(i) => i < devices@.len() && devices@[i as int].vendor_id == E1000_VENDOR_ID
                && devices@[i as int].device_id == E1000_DEVICE_ID
                && forall|j: int| 0 <= j < i ==> !(devices@[j].vendor_id == E1000_VENDOR_ID
                    && devices@[j].device_id == E1000_DEVICE_ID),
            None => forall|j: int| 0 <= j < devices@.len() ==> !(devices@[j].vendor_id == E1000_VENDOR_ID
                && devices@[j].device_id == E1000_DEVICE_ID),
        },
{
    let mut i: usize = 0;
    while i < devices.len()
        invariant
            i <= devices@.len(),
            forall|j: int| 0 <= j < i ==> !(devices@[j].vendor_id == E1000_VENDOR_ID
                && devices@[j].device_id == E1000_DEVICE_ID),
        decreases devices.len() - i,
    {
        if devices[i].vendor_id == E1000_VENDOR_ID && devices[i].device_id == E1000_DEVICE_ID {
            return Some(i);
        }
        i = i + 1;
    }
    None
}

/// The register base from BAR0: its low four flag bits cleared; when that
/// leaves zero, the fallback base, which must then be written to BAR0.
pub fn mmio_base_from_bar(bar0: u32) -> (r: (usize, bool))
    ensures
        bar0 / 16 != 0 ==> r == ((bar0 / 16 * 16) as usize, false),
        bar0 / 16 == 0 ==> r == (FALLBACK_MMIO_BASE, true),
{
    assert((bar0 & !0xFu32) == bar0 / 16 * 16) by (bit_vector);
    let base = (bar0 & !0xF) as usize;
    if base == 0 {
        (FALLBACK_MMIO_BASE, true)
    } else {
        (base, false)
    }
}

/// The PCI command register with memory space and bus mastering enabled.
pub fn enable_bus_master(cmd: u32) -> (r: u32)
    ensures
        r == cmd | 6,
{
    assert((cmd | 0x04u32 | 0x02u32) == (cmd | 6u32)) by (bit_vector);
    cmd | 0x04 | 0x02
}

/// The MAC address held in the receive address registers, low byte first.
pub fn mac_from_registers(ral: u32, rah: u32) -> (mac: [u8; 6])
    ensures
        mac@ == seq![
            (ral % 0x100) as u8,
            (ral / 0x100 % 0x100) as u8,
            (ral / 0x1_0000 % 0x100) as u8,
            (ral / 0x100_0000) as u8,
            (rah % 0x100) as u8,
            (rah / 0x100 % 0x100) as u8,
        ],
{
    assert((ral & 0xFFu32) == ral % 0x100) by (bit_vector);
    assert(((ral >> 8u32) & 0xFFu32) == ral / 0x100 % 0x100) by (bit_vector);
    assert(((ral >> 16u32) & 0xFFu32) == ral / 0x1_0000 % 0x100) by (bit_vector);
    assert(((ral >> 24u32) & 0xFFu32) == ral / 0x100_0000) by (bit_vector);
    assert((rah & 0xFFu32) == rah % 0x100) by (bit_vector);
    assert(((rah >> 8u32) & 0xFFu32) == rah / 0x100 % 0x100) by (bit_vector);
    let mac: [u8; 6] = [
        (ral & 0xFF) as u8,
        ((ral >> 8) & 0xFF) as u8,
        ((ral >> 16) & 0xFF) as u8,
        ((ral >> 24) & 0xFF) as u8,
        (rah & 0xFF) as u8,
        ((rah >> 8) & 0xFF) as u8,
    ];
    assert(mac@ =~= seq![
        (ral % 0x100) as u8,
        (ral / 0x100 % 0x100) as u8,
        (ral / 0x1_0000 % 0x100) as u8,
        (ral / 0x100_0000) as u8,
        (rah % 0x100) as u8,
        (rah / 0x100 % 0x100) as u8,
    ]);
    mac
}

/// A 64-bit address as the low and high 32-bit register values.
pub fn split_address(addr: u64) -> (r: (u32, u32))
    ensures
        r.0 == addr % 0x1_0000_0000,
        r.1 == addr / 0x1_0000_0000,
{
    assert(((addr & 0xFFFF_FFFFu64) as u32) == addr % 0x1_0000_0000) by (bit_vector);
    assert(((addr >> 32u64) as u32) == addr / 0x1_0000_0000) by (bit_vector);
    ((addr & 0xFFFF_FFFF) as u32, (addr >> 32) as u32)
}

/// The device address of a buffer: its address less the offset at which
/// physical memory is mapped, and zero below it.
pub fn device_address(virt: u64, phys_offset: u64) -> (r: u64)
    ensures
        r == (if virt >= phys_offset { virt - phys_offset } else { 0 }),
{
    virt.saturating_sub(phys_offset)
}

/// A received packet waits in a descriptor whose "done" bit (0) is set.
pub fn descriptor_done(status: u8) -> (r: bool)
    ensures
        r == (status % 2 == 1),
{
    assert((status & 1u8) == status % 2) by (bit_vector);
    (status & 1) == 1
}

/// How a frame goes out: the slot it uses, the descriptor length and
/// command, and the new tail written to TDT.
#[derive(PartialEq, Eq, Structural, Clone, Copy, Debug)]
pub struct TxPlan {
    pub slot: usize,
    pub length: u16,
    pub cmd: u8,
    pub tail: u32,
}

/// How a received packet is taken: its slot, its length (never more than a
/// buffer) and the value written to RDT to hand the slot back.
#[derive(PartialEq, Eq, Structural, Clone, Copy, Debug)]
pub struct RxPlan {
    pub slot: usize,
    pub length: usize,
    pub tail: u32,
}

/// The driver's bookkeeping for an Intel 82540EM network card: where its
/// registers are, its MAC address and the next slot of each ring.
pub struct E1000 {
    mmio_base: usize,
    mac_address: [u8; 6],
    rx_index: usize,
    tx_index: usize,
    phys_offset: u64,
}

impl E1000 {
    #[verifier::type_invariant]
    spec fn inv(self) -> bool {
        &&& self.rx_index < RX_RING_SIZE
        &&& self.tx_index < TX_RING_SIZE
    }

    pub closed spec fn mmio(self) -> usize {
        self.mmio_base
    }

    pub closed spec fn mac(self) -> Seq<u8> {
        self.mac_address@
    }

    pub closed spec fn rx_slot(self) -> usize {
        self.rx_index
    }

    pub closed spec fn tx_slot(self) -> usize {
        self.tx_index
    }

    pub closed spec fn offset(self) -> u64 {
        self.phys_offset
    }

    /// A driver for the card whose registers start at `mmio_base` and whose
    /// MAC address is `mac`; both rings start at slot 0.
    pub fn new(mmio_base: usize, mac: [u8; 6], phys_offset: u64) -> (e: Self)
        ensures
            e.mmio() == mmio_base,
            e.mac() == mac@,
            e.rx_slot() == 0,
            e.tx_slot() == 0,
            e.offset() == phys_offset,
    {
        E1000 { mmio_base, mac_address: mac, rx_index: 0, tx_index: 0, phys_offset }
    }

    pub fn mmio_base(&self) -> (r: usize)
        ensures
            r == self.mmio(),
    {
        self.mmio_base
    }

    pub fn phys_offset(&self) -> (r: u64)
        ensures
            r == self.offset(),
    {
        self.phys_offset
    }

    pub fn mac_address(&self) -> (r: [u8; 6])
        ensures
            r@ == self.mac(),
    {
        self.mac_address
    }

    pub fn tx_index(&self) -> (r: usize)
        ensures
            r == self.tx_slot(),
            r < TX_RING_SIZE,
    {
        proof { use_type_invariant(self); }
        self.tx_index
    }

    pub fn rx_index(&self) -> (r: usize)
        ensures
            r == self.rx_slot(),
            r < RX_RING_SIZE,
    {
        proof { use_type_invariant(self); }
        self.rx_index
    }

    /// Whether the current transmit slot (`tx_index`), whose descriptor
    /// status is `slot_status`, can take a frame: its descriptor is done
    /// (status bit 0) or was never used (status 0).
    pub fn can_transmit(&self, slot_status: u8) -> (r: bool)
        ensures
            r == (slot_status % 2 == 1 || slot_status == 0),
    {
        assert((slot_status & 1u8) == slot_status % 2) by (bit_vector);
        (slot_status & 1) == 1 || slot_status == 0
    }

    /// Queues a frame of `len` bytes, given the status of the current
    /// transmit slot: nothing happens when the frame is larger than a buffer
    /// or the slot is still in use; otherwise the frame takes the slot, the
    /// ring moves on by one and the new tail is given.
    pub fn transmit(&mut self, len: usize, slot_status: u8) -> (r: Option<TxPlan>)
        ensures
            final(self).mmio() == old(self).mmio() && final(self).mac() == old(self).mac(),
            final(self).rx_slot() == old(self).rx_slot() && final(self).offset() == old(self).offset(),
            len > BUFFER_SIZE || !(slot_status % 2 == 1 || slot_status == 0) ==> r is None
                && final(self).tx_slot() == old(self).tx_slot(),
            len <= BUFFER_SIZE && (slot_status % 2 == 1 || slot_status == 0) ==> r == Some(TxPlan {
                slot: old(self).tx_slot(),
                length: len as u16,
                cmd: TX_CMD,
                tail: ((old(self).tx_slot() + 1) % TX_RING_SIZE as int) as u32,
            }) && final(self).tx_slot() == (old(self).tx_slot() + 1) % TX_RING_SIZE as int,
    {
        proof { use_type_invariant(&*self); }
        if len > BUFFER_SIZE || !self.can_transmit(slot_status) {
            return None;
        }
        let slot = self.tx_index;
        self.tx_index = (self.tx_index + 1) % TX_RING_SIZE;
        Some(TxPlan { slot, length: len as u16, cmd: TX_CMD, tail: self.tx_index as u32 })
    }

    /// Takes a received packet, given the status and length of the current
    /// receive slot: nothing when the slot is not done; otherwise the packet
    /// (at most a buffer long) is taken from the slot, the slot is handed
    /// back as the new tail and the ring moves on by one.
    pub fn receive(&mut self, slot_status: u8, raw_len: u16) -> (r: Option<RxPlan>)
        ensures
            final(self).mmio() == old(self).mmio() && final(self).mac() == old(self).mac(),
            final(self).tx_slot() == old(self).tx_slot() && final(self).offset() == old(self).offset(),
            slot_status % 2 != 1 ==> r is None && final(self).rx_slot() == old(self).rx_slot(),
            slot_status % 2 == 1 ==> r == Some(RxPlan {
                slot: old(self).rx_slot(),
                length: if raw_len < BUFFER_SIZE { raw_len as usize } else { BUFFER_SIZE },
                tail: old(self).rx_slot() as u32,
            }) && final(self).rx_slot() == (old(self).rx_slot() + 1) % RX_RING_SIZE as int,
    {
        proof { use_type_invariant(&*self); }
        if !descriptor_done(slot_status) {
            return None;
        }
        let slot = self.rx_index;
        let len = if (raw_len as usize) < BUFFER_SIZE { raw_len as usize } else { BUFFER_SIZE };
        self.rx_index = (self.rx_index + 1) % RX_RING_SIZE;
        Some(RxPlan { slot, length: len, tail: slot as u32 })
    }
}

} // verus!
