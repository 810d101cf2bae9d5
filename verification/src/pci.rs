//! # Peripheral Component Interconnect (PCI)
//!
//! The configuration-space logic of PCI devices: where a register lives,
//! how the identification, header type, base address registers and the
//! capability list are decoded from the 32-bit words the configuration space
//! returns. The port I/O that reads and writes those words lives with the
//! driver.
use vstd::prelude::*;
use vstd::arithmetic::power2::pow2;
use vstd::std_specs::bits::u32_trailing_zeros;

verus! {

pub const CONFIG_ADDRESS: u16 = 0xCF8;
pub const CONFIG_DATA: u16 = 0xCFC;

const VENDOR_RED_HAT: u16 = 0x1AF4;
const VENDOR_INTEL: u16 = 0x8086;

/// The value written to `CONFIG_ADDRESS` to select a register of a function:
/// the enable bit, the bus, device and function numbers and the register's
/// dword offset.
pub open spec fn config_address_of(bus: u8, device: u8, function: u8, offset: u8) -> u32 {
    ((bus as u32) << 16u32) | ((device as u32) << 11u32) | ((function as u32) << 8u32) | ((
    offset as u32) & 0xFCu32) | 0x80000000u32
}

/// The configuration address that selects register `offset` of a function.
pub fn config_address(bus: u8, device: u8, function: u8, offset: u8) -> (a: u32)
    ensures
        a == config_address_of(bus, device, function, offset),
{
    let bus = bus as u32;
    let device = device as u32;
    let function = function as u32;
    let offset = offset as u32;
    (bus << 16) | (device << 11) | (function << 8) | (offset & 0xFC) | 0x80000000
}

#[derive(Clone, Debug)]
pub struct Device {
    pub bus: u8,
    pub device: u8,
    pub function: u8,
    pub device_id: u16,
    pub vendor_id: u16,
    pub class: u16,
    pub header_type: HeaderType,
    pub interrupt_line: u8,
    pub interrupt_pin: u8,
}

/// The device and vendor IDs in the first word of the configuration space:
/// the upper and the lower 16 bits.
pub fn ids_from_word(value: u32) -> (ids: (u16, u16))
    ensures
        ids.0 == value / 0x1_0000,
        ids.1 == value % 0x1_0000,
{
    assert((value >> 16u32) & 0xFFFFu32 == value / 0x1_0000) by (bit_vector);
    assert(value & 0xFFFFu32 == value % 0x1_0000) by (bit_vector);
    let device_id = ((value >> 16) & 0xFFFF) as u16;
    let vendor_id = (value & 0xFFFF) as u16;
    (device_id, vendor_id)
}

/// The human-readable name of a device, by vendor and device ID.
pub open spec fn device_name(vendor_id: u16, device_id: u16) -> Seq<char> {
    if vendor_id == 0x1AF4 {
        if device_id == 0x1000 {
            "Virtio network device"@
        } else if device_id == 0x1001 {
            "Virtio block device"@
        } else if device_id == 0x1041 {
            "Virtio 1.0 network device"@
        } else if device_id == 0x1042 {
            "Virtio 1.0 block device"@
        } else if device_id == 0x1043 {
            "Virtio 1.0 console"@
        } else if device_id == 0x1044 {
            "Virtio 1.0 RNG"@
        } else if device_id == 0x1050 {
            "Virtio 1.0 GPU"@
        } else if device_id == 0x1051 {
            "Virtio 1.0 clock/timer"@
        } else if device_id == 0x1052 {
            "Virtio 1.0 input"@
        } else {
            "Unknown Red Hat, Inc. device"@
        }
    } else if vendor_id == 0x8086 {
        if device_id == 0x100E {
            "82540EM Gigabit Ethernet Controller"@
        } else if device_id == 0x1237 {
            "82441FX PMC [Natoma]"@
        } else if device_id == 0x7000 {
            "82371SB PIIX3 ISA [Natoma/Triton II]"@
        } else {
            "Unknown Intel Corp. device"@
        }
    } else {
        "Unknown device"@
    }
}

/// Whether the configuration space word at offset 0x0 belongs to a present
/// device: its vendor ID (the low half) is not 0xFFFF.
pub fn device_present(id_word: u32) -> (b: bool)
    ensures
        b == (id_word % 0x1_0000 != 0xFFFF),
{
    let (_, vendor_id) = ids_from_word(id_word);
    vendor_id != 0xFFFF
}

impl Device {
    /// The device of function 0 of `device` on `bus`, from the words that its
    /// configuration space holds at offsets 0x0, 0x8, 0xC and 0x3C. A vendor
    /// ID of 0xFFFF means that no device is present.
    pub fn from_config_words(
        bus: u8,
        device: u8,
        id_word: u32,
        class_word: u32,
        header_word: u32,
        last_row: u32,
    ) -> (r: Option<Self>)
        ensures
            r is None <==> id_word % 0x1_0000 == 0xFFFF,
            r matches Some(d) ==> {
                &&& d.bus == bus && d.device == device && d.function == 0
                &&& d.device_id == id_word / 0x1_0000
                &&& d.vendor_id == id_word % 0x1_0000
                &&& d.class == class_word / 0x1_0000
                &&& d.header_type.0 == (header_word / 0x1_0000) % 0x100
                &&& d.interrupt_line == last_row % 0x100
                &&& d.interrupt_pin == (last_row / 0x100) % 0x100
            },
    {
        let function: u8 = 0;
        let (device_id, vendor_id) = ids_from_word(id_word);
        if vendor_id == 0xFFFF {
            return None;
        }
        assert((class_word >> 16u32) & 0x0000FFFFu32 == class_word / 0x1_0000 && (header_word
            >> 16u32) & 0xFFu32 == (header_word / 0x1_0000) % 0x100 && last_row & 0xFFu32
            == last_row % 0x100 && (last_row >> 8u32) & 0xFFu32 == (last_row / 0x100) % 0x100)
            by (bit_vector);
        let class = ((class_word >> 16) & 0x0000FFFF) as u16;
        let header_type = HeaderType(((header_word >> 16) & 0xFF) as u8);
        let interrupt_line = (last_row & 0xFF) as u8;
        let interrupt_pin = ((last_row >> 8) & 0xFF) as u8;
        Some(
            Self {
                bus,
                device,
                function,
                device_id,
                vendor_id,
                class,
                header_type,
                interrupt_line,
                interrupt_pin,
            },
        )
    }

    /// The human-readable name of this device.
    pub fn name(&self) -> (name: &'static str)
        ensures
            name@ == device_name(self.vendor_id, self.device_id),
    {
        if self.vendor_id == VENDOR_RED_HAT {
            match self.device_id {
                0x1000 => "Virtio network device",
                0x1001 => "Virtio block device",
                0x1041 => "Virtio 1.0 network device",
                0x1042 => "Virtio 1.0 block device",
                0x1043 => "Virtio 1.0 console",
                0x1044 => "Virtio 1.0 RNG",
                0x1050 => "Virtio 1.0 GPU",
                0x1051 => "Virtio 1.0 clock/timer",
                0x1052 => "Virtio 1.0 input",
                _ => "Unknown Red Hat, Inc. device",
            }
        } else if self.vendor_id == VENDOR_INTEL {
            match self.device_id {
                0x100E => "82540EM Gigabit Ethernet Controller",
                0x1237 => "82441FX PMC [Natoma]",
                0x7000 => "82371SB PIIX3 ISA [Natoma/Triton II]",
                _ => "Unknown Intel Corp. device",
            }
        } else {
            "Unknown device"
        }
    }
}

/// The header type byte of a device.
#[derive(Clone, Copy, Debug, Eq, Hash, PartialEq)]
pub struct HeaderType(pub u8);

const HEADER_TYPE_MULTIPLE_FUNCTIONS_BIT: u8 = 0x80;

const HEADER_TYPE_STANDARD: u8 = 0;
const HEADER_TYPE_PCI_BRIDGE: u8 = 1;
const HEADER_TYPE_CARBUS_BRIDGE: u8 = 2;

impl HeaderType {
    /// This device's actual header type: the byte without the
    /// multiple-functions bit (bit 7).
    pub fn get(&self) -> (t: u8)
        ensures
            t == self.0 % 0x80,
    {
        let b = self.0;
        assert(b & !0x80u8 == b % 0x80) by (bit_vector);
        self.0 & !HEADER_TYPE_MULTIPLE_FUNCTIONS_BIT
    }

    /// Whether this device has multiple functions (bit 7 is set).
    pub fn multiple_functions(&self) -> (b: bool)
        ensures
            b == (self.0 >= 0x80),
    {
        let b = self.0;
        assert((b & 0x80u8 == 0x80u8) == (b >= 0x80u8)) by (bit_vector);
        self.0 & HEADER_TYPE_MULTIPLE_FUNCTIONS_BIT == HEADER_TYPE_MULTIPLE_FUNCTIONS_BIT
    }

    /// Whether this is a standard PCI device.
    pub fn is_standard(&self) -> (b: bool)
        ensures
            b == (self.0 % 0x80 == 0),
    {
        self.get() == HEADER_TYPE_STANDARD
    }

    /// Whether this is a PCI-to-PCI bridge device.
    pub fn is_pci_bridge(&self) -> (b: bool)
        ensures
            b == (self.0 % 0x80 == 1),
    {
        self.get() == HEADER_TYPE_PCI_BRIDGE
    }

    /// Whether this is a PCI-to-CardBus bridge device.
    pub fn is_cardbus_bridge(&self) -> (b: bool)
        ensures
            b == (self.0 % 0x80 == 2),
    {
        self.get() == HEADER_TYPE_CARBUS_BRIDGE
    }
}

/// An entry of a device's capability list.
#[derive(Clone, Debug)]
pub struct Capability {
    pub id: u8,
    pub offset: u8,
}

/// The capability id of MSI-X.
pub const MSIX_CAPABILITY_ID: u8 = 0x11;

/// The offset of the first MSI-X entry of a capability list, if it has one.
pub fn msix_offset(capabilities: &[Capability]) -> (r: Option<u8>)
    ensures
        r is Some <==> exists|i: int| 0 <= i < capabilities@.len() && capabilities@[i].id == MSIX_CAPABILITY_ID,
        r matches Some(o) ==> exists|i: int|
            0 <= i < capabilities@.len() && capabilities@[i].id == MSIX_CAPABILITY_ID && capabilities@[i].offset == o
                && forall|j: int| 0 <= j < i ==> capabilities@[j].id != MSIX_CAPABILITY_ID,
{
    let mut k: usize = 0;
    while k < capabilities.len()
        invariant
            k <= capabilities@.len(),
            forall|j: int| 0 <= j < k ==> capabilities@[j].id != MSIX_CAPABILITY_ID,
        decreases capabilities@.len() - k,
    {
        if capabilities[k].id == MSIX_CAPABILITY_ID {
            return Some(capabilities[k].offset);
        }
        k += 1;
    }
    None
}

#[derive(Clone, Debug)]
pub enum Bar {
    Mem32 { address: u32, size: u32, prefetchable: bool },
    Mem64 { address: u64, size: u64, prefetchable: bool },
    Io { port: u32 },
}

/// The bits `start..end` of `word`, shifted down to bit 0.
pub open spec fn bit_range_of(word: u32, start: nat, end: nat) -> nat {
    (word as nat % pow2(end)) / pow2(start)
}

/// The bits `start..end` of `word`, shifted down to bit 0.
pub fn u32_bit_range(word: u32, start: usize, end: usize) -> (r: u32)
    requires
        start != end,
        1 <= end <= 32,
        start < 32,
    ensures
        r == bit_range_of(word, start as nat, end as nat),
{
    proof {
        vstd::bits::lemma_u64_pow2_no_overflow(end as nat);
        vstd::bits::lemma_u64_shl_is_mul(1, end as u64);
        vstd::arithmetic::power2::lemma_pow2_pos(end as nat);
    }
    let modulus: u64 = 1u64 << (end as u64);
    let low: u64 = word as u64 % modulus;
    proof {
        vstd::bits::lemma_u64_shr_is_div(low, start as u64);
        vstd::arithmetic::power2::lemma_pow2_pos(start as nat);
        vstd::arithmetic::div_mod::lemma_mod_decreases(word as nat, pow2(end as nat));
        vstd::arithmetic::div_mod::lemma_div_is_ordered_by_denominator(low as int, 1, pow2(start as nat) as int);
        assert(low as nat / pow2(start as nat) <= low);
        assert(low <= word);
    }
    (low >> (start as u64)) as u32
}

/// Whether bit `bit` of `word` is set.
pub fn u32_get_bit(word: u32, bit: usize) -> (b: bool)
    requires
        bit < 32,
    ensures
        b == ((word as nat / pow2(bit as nat)) % 2 == 1),
{
    let shifted = word >> (bit as u32);
    proof {
        vstd::bits::lemma_u32_shr_is_div(word, bit as u32);
    }
    assert((shifted & 1u32 != 0u32) == (shifted % 2 == 1)) by (bit_vector);
    (shifted & 1) != 0
}

/// `word` with bit `bit` set to `value`.
pub fn u32_set_bit(word: u32, bit: usize, value: bool) -> (r: u32)
    requires
        bit < 32,
    ensures
        r == if value {
            word | (1u32 << bit as u32)
        } else {
            word & !(1u32 << bit as u32)
        },
{
    if value {
        word | (1 << (bit as u32))
    } else {
        word & !(1 << (bit as u32))
    }
}

/// `num` with the bits `start..end` replaced by `value` (shifted up to bit
/// `start`; bits of `value` beyond the range are or-ed in as well).
pub open spec fn u32_set_range_of(num: u32, start: u32, end: u32, value: u32) -> u32 {
    if start != end {
        let mask: u32 = (((!0u32 << (32 - end) as u32) >> (32 - end) as u32) >> start) << start;
        (num & !mask) | (value << start)
    } else {
        num
    }
}

/// `num` with the bits `start..end` replaced by `value`.
pub fn u32_set_range(num: u32, start: usize, end: usize, value: u32) -> (r: u32)
    requires
        start != end ==> 1 <= end <= 32 && start < 32,
    ensures
        r == u32_set_range_of(num, start as u32, end as u32, value),
{
    if start != end {
        let s = start as u32;
        let k = 32 - (end as u32);
        let bitmask: u32 = !((((!0u32) << k) >> k) >> s << s);
        (num & bitmask) | (value << s)
    } else {
        num
    }
}

/// `num` with the bits `start..end` replaced by `value` (64-bit version).
pub open spec fn u64_set_range_of(num: u64, start: u64, end: u64, value: u64) -> u64 {
    if start != end {
        let mask: u64 = (((!0u64 << (64 - end) as u64) >> (64 - end) as u64) >> start) << start;
        (num & !mask) | (value << start)
    } else {
        num
    }
}

/// `num` with the bits `start..end` replaced by `value`.
pub fn u64_set_range(num: u64, start: usize, end: usize, value: u64) -> (r: u64)
    requires
        start != end ==> 1 <= end <= 64 && start < 64,
    ensures
        r == u64_set_range_of(num, start as u64, end as u64, value),
{
    if start != end {
        let s = start as u64;
        let k = 64 - (end as u64);
        let bitmask: u64 = !((((!0u64) << k) >> k) >> s << s);
        (num & bitmask) | (value << s)
    } else {
        num
    }
}

} // verus!

verus! {

/// The configuration-space offset of base address register `slot`; there are
/// six of them.
pub fn bar_offset(slot: u8) -> (r: Option<u8>)
    ensures
        r is Some <==> slot < 6,
        r matches Some(o) ==> o == 16 + 4 * slot,
{
    if slot >= 6 {
        return None;
    }
    Some(16 + slot * 4)
}

/// Whether a base address register describes an I/O space range (bit 0).
pub fn bar_is_io(bar: u32) -> (b: bool)
    ensures
        b == (bar % 2 == 1),
{
    proof {
        vstd::arithmetic::power2::lemma2_to64();
    }
    u32_get_bit(bar, 0)
}

/// The memory type of a memory base address register (bits 1-2): 0 for a
/// 32-bit and 2 for a 64-bit address.
pub fn bar_memory_type(bar: u32) -> (t: u32)
    ensures
        t == (bar / 2) % 4,
{
    proof {
        vstd::arithmetic::power2::lemma2_to64();
        vstd::arithmetic::div_mod::lemma_mod_mod(bar as int, 2, 4);
        vstd::arithmetic::div_mod::lemma_mod_breakdown(bar as int, 2, 4);
    }
    u32_bit_range(bar, 1, 3)
}

/// The address that a memory base address register holds: the register with
/// its four flag bits cleared.
pub open spec fn bar_address(bar: u32) -> u32 {
    ((bar / 16) * 16) as u32
}

/// The size of a memory range from the value read back after writing all
/// ones: the lowest set bit, ignoring the four flag bits.
pub open spec fn bar_size32(readback: u32) -> nat {
    pow2(u32_trailing_zeros(readback & 0xFFFF_FFF0u32) as nat)
}

proof fn lemma_bar_address(bar: u32)
    ensures
        bit_range_of(bar, 4, 32) * 16 == bar_address(bar),
        bit_range_of(bar, 4, 32) * 16 <= u32::MAX,
{
    vstd::arithmetic::power2::lemma2_to64();
    vstd::arithmetic::power2::lemma2_to64_rest();
}

/// The address that a memory base address register holds (see
/// [`bar_address`]); this is what the register is given back after a probe.
pub fn bar_address_of(bar: u32) -> (a: u32)
    ensures
        a == bar_address(bar),
{
    let high = u32_bit_range(bar, 4, 32);
    proof {
        lemma_bar_address(bar);
        vstd::arithmetic::power2::lemma2_to64();
        vstd::bits::lemma_u32_shl_is_mul(high, 4);
    }
    high << 4
}

impl Bar {
    /// The I/O space range that an I/O base address register describes: the
    /// register with its two flag bits cleared.
    pub fn io_from_word(bar: u32) -> (r: Self)
        ensures
            r == (Bar::Io { port: ((bar / 4) * 4) as u32 }),
    {
        let high = u32_bit_range(bar, 2, 32);
        proof {
            vstd::arithmetic::power2::lemma2_to64();
            vstd::arithmetic::power2::lemma2_to64_rest();
            vstd::bits::lemma_u32_shl_is_mul(high, 2);
        }
        Bar::Io { port: high << 2 }
    }

    /// The 32-bit memory range that a base address register describes, given
    /// the value read back after writing all ones to it; `None` when nothing
    /// reads back (the register is unimplemented).
    pub fn mem32_from_probe(bar: u32, readback: u32) -> (r: Option<Self>)
        requires
            readback != 0 ==> readback & 0xFFFF_FFF0u32 != 0,
        ensures
            r is None <==> readback == 0,
            r matches Some(b) ==> b == (Bar::Mem32 {
                address: bar_address(bar),
                size: bar_size32(readback) as u32,
                prefetchable: (bar / 8) % 2 == 1,
            }),
    {
        let prefetchable = u32_get_bit(bar, 3);
        let address = bar_address_of(bar);
        if readback == 0 {
            return None;
        }
        let masked = u32_set_range(readback, 0, 4, 0);
        assert(u32_set_range_of(readback, 0, 4, 0) == readback & 0xFFFF_FFF0u32) by (bit_vector);
        let tz = masked.trailing_zeros();
        proof {
            vstd::std_specs::bits::axiom_u32_trailing_zeros(masked);
            vstd::bits::lemma_u32_pow2_no_overflow(tz as nat);
            vstd::bits::lemma_u32_shl_is_mul(1, tz);
            vstd::arithmetic::power2::lemma2_to64();
        }
        let size: u32 = 1 << tz;
        Some(Bar::Mem32 { address, size, prefetchable })
    }

    /// The 64-bit memory range that a pair of base address registers
    /// describes, given the upper half of the address and the values read
    /// back from both registers after writing all ones to them.
    pub fn mem64_from_probe(bar: u32, address_upper: u32, readback_low: u32, readback_high: u32) -> (r: Self)
        requires
            readback_low & 0xFFFF_FFF0u32 != 0 || readback_high != 0,
        ensures
            r == (Bar::Mem64 {
                address: (bar_address(bar) + address_upper * 0x1_0000_0000) as u64,
                size: (if readback_low & 0xFFFF_FFF0u32 != 0 {
                    bar_size32(readback_low)
                } else {
                    pow2((u32_trailing_zeros(readback_high) + 32) as nat)
                }) as u64,
                prefetchable: (bar / 8) % 2 == 1,
            }),
    {
        let prefetchable = u32_get_bit(bar, 3);
        let address = bar_address_of(bar);
        let low = u32_set_range(readback_low, 0, 4, 0);
        assert(u32_set_range_of(readback_low, 0, 4, 0) == readback_low & 0xFFFF_FFF0u32)
            by (bit_vector);
        let size: u64 = if low != 0 {
            let tz = low.trailing_zeros();
            proof {
                vstd::std_specs::bits::axiom_u32_trailing_zeros(low);
                vstd::bits::lemma_u32_pow2_no_overflow(tz as nat);
                vstd::bits::lemma_u32_shl_is_mul(1, tz);
            }
            (1u32 << tz) as u64
        } else {
            let tz = readback_high.trailing_zeros();
            proof {
                vstd::std_specs::bits::axiom_u32_trailing_zeros(readback_high);
                vstd::bits::lemma_u64_pow2_no_overflow((tz + 32) as nat);
                vstd::bits::lemma_u64_shl_is_mul(1, (tz + 32) as u64);
            }
            1u64 << ((tz + 32) as u64)
        };
        let full = u64_set_range(address as u64, 32, 64, address_upper as u64);
        let a = address as u64;
        let u = address_upper as u64;
        assert(u64_set_range_of(a, 32, 64, u) == (a & 0xFFFF_FFFFu64) | (u << 32u64)) by (bit_vector);
        assert(a <= 0xFFFF_FFFFu64 ==> (a & 0xFFFF_FFFFu64) | (u << 32u64) == a + (u << 32u64))
            by (bit_vector);
        proof {
            vstd::arithmetic::power2::lemma2_to64();
            vstd::bits::lemma_u64_shl_is_mul(u, 32);
        }
        Bar::Mem64 { address: full, size, prefetchable }
    }
}

/// What must be read back from a base address register to learn the size of
/// its range: nothing, the register itself, or the register and the next one.
#[derive(Clone, Copy, Debug, PartialEq, Eq, Structural)]
pub enum BarProbeKind {
    Skip,
    Low,
    Both,
}

/// What a probe of a base address register gave: the upper half of the
/// address (the next register, for a 64-bit range) and the values read back
/// after writing all ones to the register and to the next one.
#[derive(Clone, Copy, Debug, PartialEq, Eq, Structural)]
pub struct BarProbe {
    pub address_upper: u32,
    pub readback_low: u32,
    pub readback_high: u32,
}

/// Whether the memory type of a memory base address register is known: 0
/// (32-bit) or 2 (64-bit).
pub open spec fn bar_type_known(value: u32) -> bool {
    (value / 2) % 4 == 0 || (value / 2) % 4 == 2
}

/// What to probe for base address register `slot` holding `value`: nothing
/// for a slot past the sixth, an I/O register, or a 64-bit register in the
/// last slot; the register for a 32-bit memory range; the register and the
/// next one for a 64-bit memory range.
pub open spec fn probe_kind_of(slot: u8, value: u32) -> BarProbeKind {
    if slot >= 6 || value % 2 == 1 {
        BarProbeKind::Skip
    } else if (value / 2) % 4 == 0 {
        BarProbeKind::Low
    } else if (value / 2) % 4 == 2 && slot < 5 {
        BarProbeKind::Both
    } else {
        BarProbeKind::Skip
    }
}

/// What to probe for base address register `slot` holding `value` (see
/// [`probe_kind_of`]).
pub fn bar_probe_kind(slot: u8, value: u32) -> (k: BarProbeKind)
    ensures
        k == probe_kind_of(slot, value),
{
    if slot >= 6 || bar_is_io(value) {
        BarProbeKind::Skip
    } else {
        let t = bar_memory_type(value);
        if t == 0 {
            BarProbeKind::Low
        } else if t == 2 && slot < 5 {
            BarProbeKind::Both
        } else {
            BarProbeKind::Skip
        }
    }
}

/// The range that base address register `slot`, holding `value`, describes,
/// given what its probe read back: `None` past the sixth slot, for a 64-bit
/// register in the last slot, and for a 32-bit register that reads back
/// nothing (unimplemented).
pub open spec fn bar_of(slot: u8, value: u32, probe: BarProbe) -> Option<Bar> {
    if slot >= 6 {
        None
    } else if value % 2 == 1 {
        Some(Bar::Io { port: ((value / 4) * 4) as u32 })
    } else if (value / 2) % 4 == 0 {
        if probe.readback_low == 0 {
            None
        } else {
            Some(
                Bar::Mem32 {
                    address: bar_address(value),
                    size: bar_size32(probe.readback_low) as u32,
                    prefetchable: (value / 8) % 2 == 1,
                },
            )
        }
    } else if slot >= 5 {
        None
    } else {
        Some(
            Bar::Mem64 {
                address: (bar_address(value) + probe.address_upper * 0x1_0000_0000) as u64,
                size: (if probe.readback_low & 0xFFFF_FFF0u32 != 0 {
                    bar_size32(probe.readback_low)
                } else {
                    pow2((u32_trailing_zeros(probe.readback_high) + 32) as nat)
                }) as u64,
                prefetchable: (value / 8) % 2 == 1,
            },
        )
    }
}

/// The range that base address register `slot`, holding `value`, describes
/// (see [`bar_of`]), given what its probe (see [`bar_probe_kind`]) read back.
/// An unknown memory type, and a read-back value that leaves no size, are
/// left out: there the device does not follow the specification.
pub fn bar_from_words(slot: u8, value: u32, probe: BarProbe) -> (r: Option<Bar>)
    requires
        slot < 6 && value % 2 == 0 ==> bar_type_known(value),
        probe_kind_of(slot, value) == BarProbeKind::Low ==> (probe.readback_low != 0 ==> probe.readback_low
            & 0xFFFF_FFF0u32 != 0),
        probe_kind_of(slot, value) == BarProbeKind::Both ==> (probe.readback_low & 0xFFFF_FFF0u32 != 0
            || probe.readback_high != 0),
    ensures
        r == bar_of(slot, value, probe),
{
    if bar_offset(slot).is_none() {
        return None;
    }
    if bar_is_io(value) {
        return Some(Bar::io_from_word(value));
    }
    let t = bar_memory_type(value);
    if t == 0 {
        Bar::mem32_from_probe(value, probe.readback_low)
    } else if slot >= 5 {
        None
    } else {
        Some(Bar::mem64_from_probe(value, probe.address_upper, probe.readback_low, probe.readback_high))
    }
}

/// The offset of the first capability: the byte at 0x34 of the
/// configuration space with its two low bits cleared.
pub fn capabilities_start(word: u32) -> (offset: u8)
    ensures
        offset == ((word % 0x100) / 4) * 4,
{
    let w = u32_set_bit(u32_set_bit(word, 0, false), 1, false);
    assert((word & !(1u32 << 0u32)) & !(1u32 << 1u32) == word & 0xFFFF_FFFCu32) by (bit_vector);
    assert((word & 0xFFFF_FFFCu32) % 0x100 == ((word % 0x100) / 4) * 4) by (bit_vector);
    let r = u32_bit_range(w, 0, 8);
    proof {
        vstd::arithmetic::power2::lemma2_to64();
    }
    r as u8
}

impl Capability {
    /// The capability at `offset` whose first word is `word` (its ID in bits
    /// 0-7), and the offset of the next capability (bits 8-15; 0 ends the
    /// list).
    pub fn from_word(offset: u8, word: u32) -> (r: (Self, u8))
        ensures
            r.0.id == word % 0x100,
            r.0.offset == offset,
            r.1 == (word / 0x100) % 0x100,
    {
        proof {
            vstd::arithmetic::power2::lemma2_to64();
            vstd::arithmetic::div_mod::lemma_mod_mod(word as int, 0x100, 0x100);
            vstd::arithmetic::div_mod::lemma_mod_breakdown(word as int, 0x100, 0x100);
        }
        let id = u32_bit_range(word, 0, 8) as u8;
        let next = u32_bit_range(word, 8, 16) as u8;
        (Capability { id, offset }, next)
    }
}

} // verus!
