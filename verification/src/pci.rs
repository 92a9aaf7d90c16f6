use vstd::prelude::*;

verus! {

/// The configuration address and data ports.
pub const PCI_CONFIG_ADDRESS: u16 = 0xCF8;
pub const PCI_CONFIG_DATA: u16 = 0xCFC;

/// A function found on the PCI bus, with its identity, class and base
/// address registers.
#[derive(Debug, Clone)]
pub struct PciDevice {
    pub bus: u8,
    pub device: u8,
    pub function: u8,
    pub vendor_id: u16,
    pub device_id: u16,
    pub class: u8,
    pub subclass: u8,
    pub prog_if: u8,
    pub bar0: u32,
    pub bar1: u32,
    pub bar2: u32,
    pub bar3: u32,
    pub bar4: u32,
    pub bar5: u32,
}

/// The configuration address of a register: the enable bit, then bus, slot,
/// function and the register offset rounded down to a multiple of four.
pub fn pci_config_address(bus: u8, slot: u8, func: u8, offset: u8) -> (r: u32)
    ensures
        r == 0x8000_0000u32 | ((bus as u32) << 16u32) | ((slot as u32) << 11u32) | ((func as u32) << 8u32)
            | ((offset as u32) & 0xFCu32),
        slot < 32 && func < 8 ==> r == 0x8000_0000 + bus as int * 0x10000 + slot as int * 0x800 + func as int * 0x100
            + offset as int / 4 * 4,
{
    let b = bus as u32;
    let s = slot as u32;
    let f = func as u32;
    let o = offset as u32;
    assert(b < 256 && s < 256 && f < 256 && o < 256);
    assert(s < 32 && f < 8 ==> (0x8000_0000u32 | (b << 16u32) | (s << 11u32) | (f << 8u32) | (o & 0xFCu32))
        == 0x8000_0000u32 + b * 0x10000u32 + s * 0x800u32 + f * 0x100u32 + (o / 4) * 4) by (bit_vector)
        requires b < 256 && s < 256 && f < 256 && o < 256;
    0x8000_0000 | (b << 16) | (s << 11) | (f << 8) | (o & 0xFC)
}

/// A vendor id of all ones means no function answers at that address.
pub fn vendor_present(id_reg: u32) -> (r: bool)
    ensures
        r == (id_reg % 0x10000 != 0xFFFF),
{
    assert((id_reg & 0xFFFFu32) == id_reg % 0x10000) by (bit_vector);
    (id_reg & 0xFFFF) != 0xFFFF
}

/// The device a function's registers describe: the vendor id is the low
/// half of register 0 and the device id its high half; class, subclass and
/// programming interface are the top three bytes of register 8.
pub fn pci_device(bus: u8, device: u8, function: u8, id_reg: u32, class_reg: u32, bars: [u32; 6]) -> (d: PciDevice)
    ensures
        d.bus == bus && d.device == device && d.function == function,
        d.vendor_id == id_reg % 0x10000,
        d.device_id == id_reg / 0x10000,
        d.class == class_reg / 0x100_0000,
        d.subclass == class_reg / 0x1_0000 % 0x100,
        d.prog_if == class_reg / 0x100 % 0x100,
        d.bar0 == bars[0] && d.bar1 == bars[1] && d.bar2 == bars[2],
        d.bar3 == bars[3] && d.bar4 == bars[4] && d.bar5 == bars[5],
{
    assert(((id_reg & 0xFFFFu32) as u16) == id_reg % 0x10000) by (bit_vector);
    assert(((id_reg >> 16u32) as u16) == id_reg / 0x10000) by (bit_vector);
    assert(((class_reg >> 24u32) as u8) == class_reg / 0x100_0000) by (bit_vector);
    assert(((class_reg >> 16u32) as u8) == class_reg / 0x1_0000 % 0x100) by (bit_vector);
    assert(((class_reg >> 8u32) as u8) == class_reg / 0x100 % 0x100) by (bit_vector);
    PciDevice {
        bus,
        device,
        function,
        vendor_id: (id_reg & 0xFFFF) as u16,
        device_id: (id_reg >> 16) as u16,
        class: (class_reg >> 24) as u8,
        subclass: (class_reg >> 16) as u8,
        prog_if: (class_reg >> 8) as u8,
        bar0: bars[0],
        bar1: bars[1],
        bar2: bars[2],
        bar3: bars[3],
        bar4: bars[4],
        bar5: bars[5],
    }
}

/// The number of (bus, device, function) slots: 256 buses of 32 devices of
/// 8 functions.
pub const PCI_SLOTS: u32 = 65536;

/// The bus, device and function of the `i`-th slot, in scanning order.
pub open spec fn slot_address(i: int) -> (u8, u8, u8) {
    ((i / 256) as u8, ((i / 8) % 32) as u8, (i % 8) as u8)
}

/// A scan of the PCI configuration space, slot after slot: for each slot
/// the identification register is read; when a device answers, its class
/// register and base address registers are read too and it is recorded.
pub struct PciScan {
    slot: u32,
    pending: Option<u32>,
    devices: Vec<PciDevice>,
}

impl PciScan {
    #[verifier::type_invariant]
    spec fn inv(self) -> bool {
        &&& self.slot <= PCI_SLOTS
        &&& self.pending is Some ==> self.slot < PCI_SLOTS
    }

    /// The slot being looked at (`PCI_SLOTS` when the scan is over).
    pub closed spec fn slot(self) -> int { self.slot as int }

    /// The identification register of the slot, once a device answered.
    pub closed spec fn pending(self) -> Option<u32> { self.pending }

    /// The devices found so far, in scanning order.
    pub closed spec fn found(self) -> Seq<PciDevice> { self.devices@ }

    /// A scan at the first slot.
    pub fn new() -> (s: Self)
        ensures
            s.slot() == 0,
            s.pending() is None,
            s.found() == Seq::<PciDevice>::empty(),
    {
        PciScan { slot: 0, pending: None, devices: Vec::new() }
    }

    /// The slot whose identification register is to be read next, or
    /// `None` when the scan is over or a device's details are awaited.
    pub fn next_slot(&self) -> (r: Option<(u8, u8, u8)>)
        ensures
            r == (if self.slot() < PCI_SLOTS && self.pending() is None { Some(slot_address(self.slot())) } else {
                None::<(u8, u8, u8)>
            }),
    {
        proof { use_type_invariant(self); }
        if self.slot < PCI_SLOTS && self.pending.is_none() {
            let bus = (self.slot / 256) as u8;
            let device = ((self.slot / 8) % 32) as u8;
            let function = (self.slot % 8) as u8;
            Some((bus, device, function))
        } else {
            None
        }
    }

    /// Takes the identification register of the current slot: when no
    /// device answers (vendor 0xFFFF) the scan moves on; otherwise it waits
    /// for the device's details, and `true` asks for them.
    pub fn on_id(&mut self, id_reg: u32) -> (wants_details: bool)
        requires
            old(self).slot() < PCI_SLOTS,
            old(self).pending() is None,
        ensures
            wants_details == (id_reg % 0x10000 != 0xFFFF),
            final(self).found() == old(self).found(),
            wants_details ==> final(self).slot() == old(self).slot() && final(self).pending() == Some(id_reg),
            !wants_details ==> final(self).slot() == old(self).slot() + 1 && final(self).pending() is None,
    {
        if vendor_present(id_reg) {
            self.pending = Some(id_reg);
            true
        } else {
            self.slot = self.slot + 1;
            false
        }
    }

    /// Takes the class register and the six base address registers of the
    /// device that answered, records it and moves on.
    pub fn on_details(&mut self, class_reg: u32, bars: [u32; 6])
        requires
            old(self).pending() is Some,
        ensures
            final(self).found() == old(self).found().push(pci_device_spec(slot_address(old(self).slot()),
                old(self).pending()->0, class_reg, bars@)),
            final(self).slot() == old(self).slot() + 1,
            final(self).pending() is None,
            final(self).found().len() == old(self).found().len() + 1,
            final(self).found().last().bar0 == bars[0] && final(self).found().last().bar1 == bars[1],
            final(self).found().last().bar2 == bars[2] && final(self).found().last().bar3 == bars[3],
            final(self).found().last().bar4 == bars[4] && final(self).found().last().bar5 == bars[5],
            final(self).found().last().vendor_id as int == old(self).pending()->0 % 0x10000,
            final(self).found().last().device_id as int == old(self).pending()->0 / 0x10000,
            (final(self).found().last().bus, final(self).found().last().device, final(self).found().last().function)
                == slot_address(old(self).slot()),
    {
        proof { use_type_invariant(&*self); }
        let id_reg = match self.pending {
            Some(id) => id,
            None => 0,
        };
        let bus = (self.slot / 256) as u8;
        let device = ((self.slot / 8) % 32) as u8;
        let function = (self.slot % 8) as u8;
        let d = pci_device(bus, device, function, id_reg, class_reg, bars);
        let mut devices = Vec::new();
        std::mem::swap(&mut devices, &mut self.devices);
        devices.push(d);
        self.devices = devices;
        self.pending = None;
        self.slot = self.slot + 1;
    }

    /// Whether every slot has been looked at.
    pub fn is_done(&self) -> (r: bool)
        ensures
            r == (self.slot() >= PCI_SLOTS),
    {
        self.slot >= PCI_SLOTS
    }

    /// The devices found, in scanning order.
    pub fn into_devices(self) -> (r: Vec<PciDevice>)
        ensures
            r@ == self.found(),
    {
        self.devices
    }
}

/// The device recorded for a slot (see `pci_device`).
pub open spec fn pci_device_spec(at: (u8, u8, u8), id_reg: u32, class_reg: u32, bars: Seq<u32>) -> PciDevice {
    PciDevice {
        bus: at.0,
        device: at.1,
        function: at.2,
        vendor_id: (id_reg % 0x10000) as u16,
        device_id: (id_reg / 0x10000) as u16,
        class: (class_reg / 0x100_0000) as u8,
        subclass: (class_reg / 0x1_0000 % 0x100) as u8,
        prog_if: (class_reg / 0x100 % 0x100) as u8,
        bar0: bars[0],
        bar1: bars[1],
        bar2: bars[2],
        bar3: bars[3],
        bar4: bars[4],
        bar5: bars[5],
    }
}


/// The device recorded for a slot keeps that slot's address, its six base
/// address registers in order (so `bar0` is the first of them, where an
/// E1000 keeps its register window), the vendor id from the low half of the
/// identification register and the device id from its high half, and the
/// class, subclass and interface from the top three bytes of the class
/// register.
pub proof fn law_recorded_device(at: (u8, u8, u8), id_reg: u32, class_reg: u32, bars: Seq<u32>)
    requires
        bars.len() == 6,
    ensures
        ({
            let d = pci_device_spec(at, id_reg, class_reg, bars);
            &&& (d.bus, d.device, d.function) == at
            &&& d.bar0 == bars[0] && d.bar1 == bars[1] && d.bar2 == bars[2]
            &&& d.bar3 == bars[3] && d.bar4 == bars[4] && d.bar5 == bars[5]
            &&& d.vendor_id as int == id_reg % 0x10000
            &&& d.device_id as int == id_reg / 0x10000
            &&& d.class as int == class_reg / 0x100_0000
            &&& d.subclass as int == class_reg / 0x1_0000 % 0x100
            &&& d.prog_if as int == class_reg / 0x100 % 0x100
        }),
{
}

} // verus!
