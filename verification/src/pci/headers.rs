//! Configuration headers: the generic part, the type-specific tail and the
//! base address registers.

use crate::pci::config::{read_dword, spec_config_address, ConfigSpace, Registers};
use crate::pci::{pci_config_read_word, read_word};
use vstd::prelude::*;

verus! {

/// Why a header could not be decoded.
#[derive(Debug, Clone, Copy, PartialEq, Eq, Structural)]
pub enum HeaderError {
    /// The header type is none of the known ones.
    InvalidHeaderType,
    /// The header type is known, but its tail is not decoded.
    UnimplementedHeaderType,
}

/// A memory-space base address register.
#[derive(Debug, Clone, Copy, PartialEq, Eq, Structural)]
pub struct MemoryBar {
    /// Bits 1 and 2 of the register: 0 for 32-bit, 2 for 64-bit decoding.
    pub _type: u8,
    pub prefetchable: bool,
    /// The register with its four low bits cleared.
    pub address: u32,
}

/// An I/O-space base address register.
#[derive(Debug, Clone, Copy, PartialEq, Eq, Structural)]
pub struct IOBar {
    /// The register with its two low bits cleared.
    pub address: u32,
}

/// A decoded base address register.
#[derive(Debug, Clone, Copy, PartialEq, Eq, Structural)]
pub enum BAR {
    Memory(MemoryBar),
    IO(IOBar),
}

/// Offset of the first base address register.
pub const BAR_BASE: u8 = 0x10;

/// Base address registers of a standard device.
pub const STANDARD_BARS: u8 = 6;

/// The low byte of a word.
pub open spec fn low_byte(word: u16) -> u8 {
    (word & 0xFF) as u8
}

/// The high byte of a word.
pub open spec fn high_byte(word: u16) -> u8 {
    (word >> 8) as u8
}

/// The double word made of two adjacent words, the lower one first.
pub open spec fn join_words(low: u16, high: u16) -> u32 {
    (high as u32) << 16 | low as u32
}

/// What a raw base address register decodes to. Bit 0 tells I/O from memory;
/// a memory register carries its type in bits 1 and 2 and the prefetchable
/// flag in bit 3. The address is the register with those bits cleared.
pub open spec fn decode_bar(raw: u32) -> BAR {
    if raw & 1 == 0 {
        BAR::Memory(
            MemoryBar {
                _type: ((raw >> 1) & 3) as u8,
                prefetchable: raw & 8 != 0,
                address: raw & 0xFFFF_FFF0,
            },
        )
    } else {
        BAR::IO(IOBar { address: raw & 0xFFFF_FFFC })
    }
}

/// The raw register that a decoded one stands for.
pub open spec fn encode_bar(bar: BAR) -> u32 {
    match bar {
        BAR::Memory(m) => m.address | (if m.prefetchable {
            8u32
        } else {
            0u32
        }) | (m._type as u32) << 1,
        BAR::IO(io) => io.address | 1,
    }
}

/// The raw base address register `index` of a function.
pub open spec fn bar_raw(regs: Registers, bus: u8, device: u8, function: u8, index: u8) -> u32 {
    join_words(
        read_word(regs, bus, device, function, (BAR_BASE + index * 4) as u8),
        read_word(regs, bus, device, function, (BAR_BASE + index * 4 + 2) as u8),
    )
}

fn split(word: u16) -> (bytes: (u8, u8))
    ensures
        bytes.0 == low_byte(word),
        bytes.1 == high_byte(word),
{
    ((word & 0xFF) as u8, (word >> 8) as u8)
}

fn join(low: u16, high: u16) -> (dword: u32)
    ensures
        dword == join_words(low, high),
{
    (high as u32) << 16 | low as u32
}

impl BAR {
    /// Decodes a raw base address register.
    pub fn decode(raw: u32) -> (bar: BAR)
        ensures
            bar == decode_bar(raw),
    {
        if raw & 1 == 0 {
            BAR::Memory(
                MemoryBar {
                    _type: ((raw >> 1) & 3) as u8,
                    prefetchable: raw & 8 != 0,
                    address: raw & 0xFFFF_FFF0,
                },
            )
        } else {
            BAR::IO(IOBar { address: raw & 0xFFFF_FFFC })
        }
    }

    /// Reads and decodes base address register `index` of a function.
    pub fn new(space: &ConfigSpace, bus: u8, device: u8, function: u8, index: u8) -> (bar: BAR)
        requires
            index < STANDARD_BARS,
        ensures
            bar == decode_bar(bar_raw(space@, bus, device, function, index)),
    {
        let low = pci_config_read_word(space, bus, device, function, BAR_BASE + index * 4);
        let high = pci_config_read_word(space, bus, device, function, BAR_BASE + index * 4 + 2);
        BAR::decode(join(low, high))
    }
}

/// The tail of a standard device header.
#[derive(Debug, Clone, Copy, PartialEq, Eq)]
pub struct StandardHeader {
    pub base_address_registers: [BAR; 6],
    pub cardbus_cis_pointer: u32,
    pub subsystem_vendor_id: u16,
    pub subsystem_id: u16,
    pub expansion_rom_base_address: u32,
    pub capabilities_pointer: u8,
    pub interrupt_line: u8,
    pub interrupt_pin: u8,
    pub min_grant: u8,
    pub max_latency: u8,
}

/// The tail of a PCI-to-PCI bridge header.
#[derive(Debug, Clone, Copy, PartialEq, Eq)]
pub struct PciToPciBus {
    pub base_address_registers: [u32; 2],
    pub primary_bus_number: u8,
    pub secondary_bus_number: u8,
    pub subordinate_bus_number: u8,
    pub secondary_latency_timer: u8,
    pub io_base: u8,
    pub io_limit: u8,
    pub secondary_status: u16,
    pub memory_base: u16,
    pub memory_limit: u16,
    pub prefetchable_memory_base: u16,
    pub prefetchable_memory_limit: u16,
    pub prefetchable_base_upper_32_bits: u32,
    pub prefetchable_limit_upper_32_bits: u32,
    pub io_base_upper_16_bits: u16,
    pub io_limit_upper_16_bits: u16,
    pub capabilities_pointer: u8,
    pub expansion_rom_base_address: u32,
    pub interrupt_line: u8,
    pub interrupt_pin: u8,
    pub bridge_control: u16,
}

/// The tail of a CardBus bridge header, of which nothing is decoded.
#[derive(Debug, Clone, Copy, PartialEq, Eq)]
pub struct CardBusBridge {}

/// The type-specific tail of a header.
#[derive(Debug, Clone, Copy, PartialEq, Eq)]
pub enum HeaderType {
    Standard(StandardHeader),
    PciToPciBridge(PciToPciBus),
    CardBusBridge(CardBusBridge),
    Unimplemented,
}

/// A configuration header: where it was read, the fields every function has,
/// and the tail that its header type selects.
#[derive(Debug, Clone, Copy, PartialEq, Eq)]
pub struct Header {
    pub bus: u8,
    pub device: u8,
    pub function: u8,
    pub vendor_id: u16,
    pub device_id: u16,
    pub command: u16,
    pub status: u16,
    pub revision_id: u8,
    pub prog_if: u8,
    pub subclass: u8,
    pub class: u8,
    pub cache_line_size: u8,
    pub latency_timer: u8,
    pub header_type: u8,
    pub bist: u8,
    pub rest_of_header: HeaderType,
}

/// Bit 7 of the header type byte: the device has more than one function.
pub const MULTI_FUNCTION: u8 = 0x80;

/// Header type of a standard device.
pub const KIND_STANDARD: u8 = 0x00;

/// Header type of a PCI-to-PCI bridge.
pub const KIND_PCI_BRIDGE: u8 = 0x01;

/// Header type of a CardBus bridge.
pub const KIND_CARDBUS_BRIDGE: u8 = 0x02;

/// The low seven bits of the header type byte, which select the tail.
pub open spec fn header_kind(header_type: u8) -> u8 {
    header_type & 0x7F
}

/// The header type byte of a function.
pub open spec fn header_type_byte(regs: Registers, bus: u8, device: u8, function: u8) -> u8 {
    low_byte(read_word(regs, bus, device, function, 0x0E))
}

/// The standard tail that the registers of a function hold.
pub open spec fn standard_header(regs: Registers, bus: u8, device: u8, function: u8)
    -> StandardHeader {
    StandardHeader {
        base_address_registers: [
            decode_bar(bar_raw(regs, bus, device, function, 0)),
            decode_bar(bar_raw(regs, bus, device, function, 1)),
            decode_bar(bar_raw(regs, bus, device, function, 2)),
            decode_bar(bar_raw(regs, bus, device, function, 3)),
            decode_bar(bar_raw(regs, bus, device, function, 4)),
            decode_bar(bar_raw(regs, bus, device, function, 5)),
        ],
        cardbus_cis_pointer: join_words(
            read_word(regs, bus, device, function, 0x28),
            read_word(regs, bus, device, function, 0x2A),
        ),
        subsystem_vendor_id: read_word(regs, bus, device, function, 0x2C),
        subsystem_id: read_word(regs, bus, device, function, 0x2E),
        expansion_rom_base_address: join_words(
            read_word(regs, bus, device, function, 0x30),
            read_word(regs, bus, device, function, 0x32),
        ),
        capabilities_pointer: low_byte(read_word(regs, bus, device, function, 0x34)),
        interrupt_line: low_byte(read_word(regs, bus, device, function, 0x3C)),
        interrupt_pin: high_byte(read_word(regs, bus, device, function, 0x3C)),
        min_grant: low_byte(read_word(regs, bus, device, function, 0x3E)),
        max_latency: high_byte(read_word(regs, bus, device, function, 0x3E)),
    }
}

/// The bridge tail that the registers of a function hold.
pub open spec fn bridge_header(regs: Registers, bus: u8, device: u8, function: u8) -> PciToPciBus {
    PciToPciBus {
        base_address_registers: [
            bar_raw(regs, bus, device, function, 0),
            bar_raw(regs, bus, device, function, 1),
        ],
        primary_bus_number: low_byte(read_word(regs, bus, device, function, 0x18)),
        secondary_bus_number: high_byte(read_word(regs, bus, device, function, 0x18)),
        subordinate_bus_number: low_byte(read_word(regs, bus, device, function, 0x1A)),
        secondary_latency_timer: high_byte(read_word(regs, bus, device, function, 0x1A)),
        io_base: low_byte(read_word(regs, bus, device, function, 0x1C)),
        io_limit: high_byte(read_word(regs, bus, device, function, 0x1C)),
        secondary_status: read_word(regs, bus, device, function, 0x1E),
        memory_base: read_word(regs, bus, device, function, 0x20),
        memory_limit: read_word(regs, bus, device, function, 0x22),
        prefetchable_memory_base: read_word(regs, bus, device, function, 0x24),
        prefetchable_memory_limit: read_word(regs, bus, device, function, 0x26),
        prefetchable_base_upper_32_bits: join_words(
            read_word(regs, bus, device, function, 0x28),
            read_word(regs, bus, device, function, 0x2A),
        ),
        prefetchable_limit_upper_32_bits: join_words(
            read_word(regs, bus, device, function, 0x2C),
            read_word(regs, bus, device, function, 0x2E),
        ),
        io_base_upper_16_bits: read_word(regs, bus, device, function, 0x30),
        io_limit_upper_16_bits: read_word(regs, bus, device, function, 0x32),
        capabilities_pointer: low_byte(read_word(regs, bus, device, function, 0x34)),
        expansion_rom_base_address: join_words(
            read_word(regs, bus, device, function, 0x38),
            read_word(regs, bus, device, function, 0x3A),
        ),
        interrupt_line: low_byte(read_word(regs, bus, device, function, 0x3C)),
        interrupt_pin: high_byte(read_word(regs, bus, device, function, 0x3C)),
        bridge_control: read_word(regs, bus, device, function, 0x3E),
    }
}

/// The tail of the header of a function, or why there is none: a standard
/// tail for header type 0, no decoded tail for the two bridge types, and no
/// tail at all for any other type.
pub open spec fn header_tail(regs: Registers, bus: u8, device: u8, function: u8) -> Result<
    HeaderType,
    HeaderError,
> {
    let kind = header_kind(header_type_byte(regs, bus, device, function));
    if kind == KIND_STANDARD {
        Ok(HeaderType::Standard(standard_header(regs, bus, device, function)))
    } else if kind == KIND_PCI_BRIDGE || kind == KIND_CARDBUS_BRIDGE {
        Err(HeaderError::UnimplementedHeaderType)
    } else {
        Err(HeaderError::InvalidHeaderType)
    }
}

/// The header of a function, or why it cannot be decoded.
pub open spec fn header(regs: Registers, bus: u8, device: u8, function: u8) -> Result<
    Header,
    HeaderError,
> {
    match header_tail(regs, bus, device, function) {
        Ok(rest) => Ok(
            Header {
                bus,
                device,
                function,
                vendor_id: read_word(regs, bus, device, function, 0x00),
                device_id: read_word(regs, bus, device, function, 0x02),
                command: read_word(regs, bus, device, function, 0x04),
                status: read_word(regs, bus, device, function, 0x06),
                revision_id: low_byte(read_word(regs, bus, device, function, 0x08)),
                prog_if: high_byte(read_word(regs, bus, device, function, 0x08)),
                subclass: low_byte(read_word(regs, bus, device, function, 0x0A)),
                class: high_byte(read_word(regs, bus, device, function, 0x0A)),
                cache_line_size: low_byte(read_word(regs, bus, device, function, 0x0C)),
                latency_timer: high_byte(read_word(regs, bus, device, function, 0x0C)),
                header_type: low_byte(read_word(regs, bus, device, function, 0x0E)),
                bist: high_byte(read_word(regs, bus, device, function, 0x0E)),
                rest_of_header: rest,
            },
        ),
        Err(e) => Err(e),
    }
}

impl StandardHeader {
    /// Reads the standard tail of a function.
    pub fn get_header(space: &ConfigSpace, bus: u8, device: u8, function: u8) -> (tail:
        StandardHeader)
        ensures
            tail == standard_header(space@, bus, device, function),
    {
        let bars = [
            BAR::new(space, bus, device, function, 0),
            BAR::new(space, bus, device, function, 1),
            BAR::new(space, bus, device, function, 2),
            BAR::new(space, bus, device, function, 3),
            BAR::new(space, bus, device, function, 4),
            BAR::new(space, bus, device, function, 5),
        ];
        let cis = join(
            pci_config_read_word(space, bus, device, function, 0x28),
            pci_config_read_word(space, bus, device, function, 0x2A),
        );
        let rom = join(
            pci_config_read_word(space, bus, device, function, 0x30),
            pci_config_read_word(space, bus, device, function, 0x32),
        );
        let (capabilities_pointer, _) = split(
            pci_config_read_word(space, bus, device, function, 0x34),
        );
        let (interrupt_line, interrupt_pin) = split(
            pci_config_read_word(space, bus, device, function, 0x3C),
        );
        let (min_grant, max_latency) = split(
            pci_config_read_word(space, bus, device, function, 0x3E),
        );
        let tail = StandardHeader {
            base_address_registers: bars,
            cardbus_cis_pointer: cis,
            subsystem_vendor_id: pci_config_read_word(space, bus, device, function, 0x2C),
            subsystem_id: pci_config_read_word(space, bus, device, function, 0x2E),
            expansion_rom_base_address: rom,
            capabilities_pointer,
            interrupt_line,
            interrupt_pin,
            min_grant,
            max_latency,
        };
        assert(tail.base_address_registers =~= standard_header(
            space@,
            bus,
            device,
            function,
        ).base_address_registers);
        tail
    }
}

impl PciToPciBus {
    /// Reads the bridge tail of a function.
    pub fn get_header(space: &ConfigSpace, bus: u8, device: u8, function: u8) -> (tail:
        PciToPciBus)
        ensures
            tail == bridge_header(space@, bus, device, function),
    {
        let mut bars = [0u32;2];
        for i in 0..2u8
            invariant
                forall|j: int|
                    0 <= j < i ==> bars@[j] == bar_raw(space@, bus, device, function, j as u8),
        {
            let offset = BAR_BASE + i * 4;
            let low = pci_config_read_word(space, bus, device, function, offset);
            let high = pci_config_read_word(space, bus, device, function, offset + 2);
            bars[i as usize] = join(low, high);
        }
        let (primary_bus_number, secondary_bus_number) = split(
            pci_config_read_word(space, bus, device, function, 0x18),
        );
        let (subordinate_bus_number, secondary_latency_timer) = split(
            pci_config_read_word(space, bus, device, function, 0x1A),
        );
        let (io_base, io_limit) = split(pci_config_read_word(space, bus, device, function, 0x1C));
        let prefetchable_base_upper_32_bits = join(
            pci_config_read_word(space, bus, device, function, 0x28),
            pci_config_read_word(space, bus, device, function, 0x2A),
        );
        let prefetchable_limit_upper_32_bits = join(
            pci_config_read_word(space, bus, device, function, 0x2C),
            pci_config_read_word(space, bus, device, function, 0x2E),
        );
        let (capabilities_pointer, _) = split(
            pci_config_read_word(space, bus, device, function, 0x34),
        );
        let expansion_rom_base_address = join(
            pci_config_read_word(space, bus, device, function, 0x38),
            pci_config_read_word(space, bus, device, function, 0x3A),
        );
        let (interrupt_line, interrupt_pin) = split(
            pci_config_read_word(space, bus, device, function, 0x3C),
        );
        let tail = PciToPciBus {
            base_address_registers: bars,
            primary_bus_number,
            secondary_bus_number,
            subordinate_bus_number,
            secondary_latency_timer,
            io_base,
            io_limit,
            secondary_status: pci_config_read_word(space, bus, device, function, 0x1E),
            memory_base: pci_config_read_word(space, bus, device, function, 0x20),
            memory_limit: pci_config_read_word(space, bus, device, function, 0x22),
            prefetchable_memory_base: pci_config_read_word(space, bus, device, function, 0x24),
            prefetchable_memory_limit: pci_config_read_word(space, bus, device, function, 0x26),
            prefetchable_base_upper_32_bits,
            prefetchable_limit_upper_32_bits,
            io_base_upper_16_bits: pci_config_read_word(space, bus, device, function, 0x30),
            io_limit_upper_16_bits: pci_config_read_word(space, bus, device, function, 0x32),
            capabilities_pointer,
            expansion_rom_base_address,
            interrupt_line,
            interrupt_pin,
            bridge_control: pci_config_read_word(space, bus, device, function, 0x3E),
        };
        assert(tail.base_address_registers =~= bridge_header(
            space@,
            bus,
            device,
            function,
        ).base_address_registers);
        tail
    }
}

impl CardBusBridge {
    /// The CardBus tail is not decoded: asking for it always fails, and no
    /// empty tail is made up in its place.
    #[allow(unused_variables)]
    pub fn get_header(space: &ConfigSpace, bus: u8, device: u8, function: u8) -> (tail: Result<
        CardBusBridge,
        HeaderError,
    >)
        ensures
            tail == Err::<CardBusBridge, HeaderError>(HeaderError::UnimplementedHeaderType),
    {
        Err(HeaderError::UnimplementedHeaderType)
    }
}

impl HeaderType {
    /// Reads the tail that the header type of a function selects.
    pub fn get(space: &ConfigSpace, bus: u8, device: u8, function: u8) -> (tail: Result<
        HeaderType,
        HeaderError,
    >)
        ensures
            tail == header_tail(space@, bus, device, function),
    {
        let (header_type, _) = split(pci_config_read_word(space, bus, device, function, 0x0E));
        let kind = header_type & 0x7F;
        if kind == KIND_STANDARD {
            Ok(HeaderType::Standard(StandardHeader::get_header(space, bus, device, function)))
        } else if kind == KIND_PCI_BRIDGE || kind == KIND_CARDBUS_BRIDGE {
            Err(HeaderError::UnimplementedHeaderType)
        } else {
            Err(HeaderError::InvalidHeaderType)
        }
    }

    /// The standard tail, where this is one.
    pub fn to_standard(&self) -> (tail: Result<&StandardHeader, HeaderError>)
        ensures
            match *self {
                HeaderType::Standard(h) => tail == Ok::<&StandardHeader, HeaderError>(&h),
                _ => tail == Err::<&StandardHeader, HeaderError>(HeaderError::InvalidHeaderType),
            },
    {
        match self {
            HeaderType::Standard(header) => Ok(header),
            _ => Err(HeaderError::InvalidHeaderType),
        }
    }
}

impl Header {
    /// Reads the header of a function. The caller is expected to have found
    /// the function present; an empty slot reads as all ones and so has an
    /// invalid header type.
    pub fn new(space: &ConfigSpace, bus: u8, device: u8, function: u8) -> (header: Result<
        Header,
        HeaderError,
    >)
        ensures
            header == self::header(space@, bus, device, function),
    {
        let vendor_id = pci_config_read_word(space, bus, device, function, 0x00);
        let device_id = pci_config_read_word(space, bus, device, function, 0x02);
        let command = pci_config_read_word(space, bus, device, function, 0x04);
        let status = pci_config_read_word(space, bus, device, function, 0x06);
        let (revision_id, prog_if) = split(
            pci_config_read_word(space, bus, device, function, 0x08),
        );
        let (subclass, class) = split(pci_config_read_word(space, bus, device, function, 0x0A));
        let (cache_line_size, latency_timer) = split(
            pci_config_read_word(space, bus, device, function, 0x0C),
        );
        let (header_type, bist) = split(pci_config_read_word(space, bus, device, function, 0x0E));
        match HeaderType::get(space, bus, device, function) {
            Ok(rest_of_header) => Ok(
                Header {
                    bus,
                    device,
                    function,
                    vendor_id,
                    device_id,
                    command,
                    status,
                    revision_id,
                    prog_if,
                    subclass,
                    class,
                    cache_line_size,
                    latency_timer,
                    header_type,
                    bist,
                    rest_of_header,
                },
            ),
            Err(e) => Err(e),
        }
    }
}

/// A base address register read as two words is the double word that its
/// address names: nothing is lost or mixed up between the halves.
pub proof fn bar_is_its_register(regs: Registers, bus: u8, device: u8, function: u8, index: u8)
    requires
        index < STANDARD_BARS,
    ensures
        bar_raw(regs, bus, device, function, index) == read_dword(
            regs,
            spec_config_address(bus, device, function, (BAR_BASE + index * 4) as u8),
        ),
{
    let low = (BAR_BASE + index * 4) as u8;
    let high = (BAR_BASE + index * 4 + 2) as u8;
    let data = read_dword(regs, spec_config_address(bus, device, function, low));
    assert(low % 4 == 0 && high == low + 2 ==> low & 2 == 0 && high & 2 != 0 && high & 0xFC == low
        & 0xFC) by (bit_vector);
    assert(spec_config_address(bus, device, function, high) == spec_config_address(
        bus,
        device,
        function,
        low,
    ));
    assert(((((data >> 16) & 0xFFFF) as u16) as u32) << 16 | ((data & 0xFFFF) as u16) as u32
        == data) by (bit_vector);
}

/// The header type alone selects the tail. Flag bit 7 set aside, type 0 gives
/// a standard tail, types 1 and 2 are refused as not decoded, and every other
/// type is refused as invalid; a header is decoded exactly where its tail is,
/// and fails with the error of its tail. No tail is ever made up.
pub proof fn tail_follows_header_type(regs: Registers, bus: u8, device: u8, function: u8)
    ensures
        ({
            let byte = header_type_byte(regs, bus, device, function);
            let kind = header_kind(byte);
            let tail = header_tail(regs, bus, device, function);
            let whole = header(regs, bus, device, function);
            &&& byte < MULTI_FUNCTION ==> kind == byte
            &&& byte >= MULTI_FUNCTION ==> kind == byte - MULTI_FUNCTION
            &&& kind == KIND_STANDARD <==> tail == Ok::<HeaderType, HeaderError>(
                HeaderType::Standard(standard_header(regs, bus, device, function)),
            )
            &&& kind == KIND_PCI_BRIDGE || kind == KIND_CARDBUS_BRIDGE <==> tail == Err::<
                HeaderType,
                HeaderError,
            >(HeaderError::UnimplementedHeaderType)
            &&& kind > KIND_CARDBUS_BRIDGE <==> tail == Err::<HeaderType, HeaderError>(
                HeaderError::InvalidHeaderType,
            )
            &&& whole is Ok <==> kind == KIND_STANDARD
            &&& whole matches Ok(h) ==> h.rest_of_header == HeaderType::Standard(
                standard_header(regs, bus, device, function),
            ) && h.header_type == byte
            &&& whole matches Err(e) ==> tail == Err::<HeaderType, HeaderError>(e)
        }),
{
    let byte = header_type_byte(regs, bus, device, function);
    assert(byte < 0x80 ==> byte & 0x7F == byte) by (bit_vector);
    assert(byte >= 0x80 ==> byte & 0x7F == (byte - 0x80) as u8) by (bit_vector);
}

/// Decoding keeps what the register holds: bit 0 alone decides between I/O
/// and memory, and encoding the decoded register gives the raw value back.
/// For an I/O register this needs its reserved bit 1 to be clear, as the
/// decoded form has no place for it.
pub proof fn decode_bar_round_trips(raw: u32)
    requires
        raw & 1 == 1 ==> raw & 2 == 0,
    ensures
        decode_bar(raw) is IO <==> raw & 1 == 1,
        decode_bar(raw) is Memory <==> raw & 1 == 0,
        encode_bar(decode_bar(raw)) == raw,
{
    assert(raw & 1 == 0 || raw & 1 == 1) by (bit_vector);
    assert(raw & 1 == 0 ==> ((raw & 0xFFFF_FFF0) | (if raw & 8 != 0 {
        8u32
    } else {
        0u32
    }) | ((((raw >> 1) & 3) as u8) as u32) << 1) == raw) by (bit_vector);
    assert(raw & 1 == 1 && raw & 2 == 0 ==> ((raw & 0xFFFF_FFFC) | 1) == raw) by (bit_vector);
}

/// A decoded register whose fields are in range encodes to a raw value that
/// decodes to it again.
pub proof fn encode_bar_round_trips(bar: BAR)
    requires
        bar matches BAR::Memory(m) ==> m._type < 4 && m.address & 0xF == 0,
        bar matches BAR::IO(io) ==> io.address & 3 == 0,
    ensures
        decode_bar(encode_bar(bar)) == bar,
{
    match bar {
        BAR::Memory(m) => {
            let t = m._type;
            let a = m.address;
            let p: u32 = if m.prefetchable {
                8
            } else {
                0
            };
            let raw = a | p | (t as u32) << 1;
            assert(t < 4 && a & 0xF == 0 && (p == 8 || p == 0) && raw == a | p | (t as u32) << 1
                ==> raw & 1 == 0 && ((raw >> 1) & 3) as u8 == t && (raw & 8 != 0) == (p == 8)
                && raw & 0xFFFF_FFF0 == a) by (bit_vector);
        },
        BAR::IO(io) => {
            let a = io.address;
            assert(a & 3 == 0 ==> (a | 1) & 1 == 1 && (a | 1) & 0xFFFF_FFFC == a)
                by (bit_vector);
        },
    }
}

} // verus!
