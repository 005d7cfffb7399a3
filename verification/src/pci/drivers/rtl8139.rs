//! The RTL8139 network controller, without the I/O.
//!
//! The driver decides; the caller acts. [`Rtl8139::step`] takes what the
//! last action gave and returns the next one: a register to write, a register
//! to read, or a service to ask of the rest of the kernel. The caller carries
//! the action out and comes back with the result, until the driver answers
//! [`Action::Ready`]. From then on [`Rtl8139::send_packet`] stages frames in
//! the DMA buffer, which the driver owns from construction to shutdown.

use crate::pci::headers::{Header, HeaderType, IOBar, BAR};
use vstd::prelude::*;

verus! {

/// Vendor identity of the controller.
pub const RTL8139_VENDOR_ID: u16 = 0x10EC;

/// Device identity of the controller.
pub const RTL8139_DEVICE_ID: u16 = 0x8139;

/// Smallest DMA buffer: the receive ring, its header slack, and room for one
/// frame that the controller writes past the end of the ring.
pub const BUFFER_SIZE: usize = 8192 + 16 + 1500;

/// Highest I/O base that leaves room for the register window.
pub const IO_BASE_MAX: u32 = 0xFF00;

/// How often the command register is polled for the end of a reset.
pub const RESET_POLLS: u32 = 100_000;

/// Bytes that the transmit cursor skips after each frame.
pub const TX_PAD: u32 = 4;

/// Offset of the PCI command word in configuration space.
pub const PCI_COMMAND: u8 = 0x04;

/// Command word bits for I/O-space decoding and bus mastering.
pub const PCI_COMMAND_ENABLE: u16 = 0b101;

/// Low four bytes of the station address.
pub const REG_MAC_LOW: u16 = 0x00;

/// High two bytes of the station address.
pub const REG_MAC_HIGH: u16 = 0x04;

/// Transmit status of descriptor 0; writing it starts the transmission.
pub const REG_TX_STATUS: u16 = 0x10;

/// Transmit start address of descriptor 0.
pub const REG_TX_ADDRESS: u16 = 0x20;

/// Receive buffer start address.
pub const REG_RX_BUFFER: u16 = 0x30;

/// Command register.
pub const REG_COMMAND: u16 = 0x37;

/// Interrupt mask register.
pub const REG_INTERRUPT_MASK: u16 = 0x3C;

/// Interrupt status register, which also takes the interrupt vector.
pub const REG_INTERRUPT_STATUS: u16 = 0x3E;

/// Receive configuration register.
pub const REG_RX_CONFIG: u16 = 0x44;

/// Configuration register 1, which powers the controller on.
pub const REG_CONFIG1: u16 = 0x52;

/// Command bit: software reset, set until the reset is complete.
pub const CMD_RESET: u8 = 0x10;

/// Command bits: receiver and transmitter enabled.
pub const CMD_ENABLE: u8 = 0x0C;

/// Interrupt mask: transmit OK and receive OK.
pub const INTERRUPT_MASK: u8 = 0x05;

/// Receive configuration: accept broadcast, multicast, physical-match and
/// all physical frames, and let frames run past the end of the ring.
pub const RX_CONFIG: u32 = 0x8F;

/// Value that starts a transmission.
pub const TX_GO: u32 = 0x1;

/// Size of the receive ring at the start of the DMA buffer.
pub const RX_RING_SIZE: u32 = 8192;

/// Bytes that stand before the payload of each ring entry: a status word and
/// a length word, each least significant byte first.
pub const RX_ENTRY_HEADER: u32 = 4;

/// Interrupt status and ring entry status: a frame was received intact.
pub const STATUS_RX_OK: u16 = 0x0001;

/// Interrupt status: a frame was sent.
pub const STATUS_TX_OK: u16 = 0x0004;

/// Interrupt status bits that report a failure: receive error, transmit
/// error, receive buffer overflow, receive FIFO overflow and system error.
pub const STATUS_ERRORS: u16 = 0x805A;

/// Why the driver gave up or refused.
#[derive(Debug, Clone, Copy, PartialEq, Eq, Structural)]
pub enum Rtl8139Error {
    /// The header is not that of the controller, its first base address
    /// register is not a usable I/O register, or the DMA buffer has no
    /// physical address.
    InvalidHeader,
    /// The DMA buffer is smaller than the controller needs.
    BufferTooSmall,
    /// The reset bit did not clear within the polls allowed.
    ResetTimeout,
    /// The frame does not fit behind the transmit cursor.
    BufferFull,
    /// The event does not answer the action that the driver asked for, or
    /// the driver is not in a state for the call.
    Unexpected,
}

/// Why nothing was taken from the receive ring.
#[derive(Debug, Clone, Copy, PartialEq, Eq, Structural)]
pub enum ReceiveError {
    /// The controller is not ready.
    NotReady,
    /// The entry at the read pointer does not lie within the buffer. The
    /// read pointer stays where it is.
    BadEntry,
    /// The controller marked the entry as not received intact; this is its
    /// status word. The read pointer has moved past the entry.
    Hardware(u16),
}

/// What the caller is to do next.
#[derive(Debug, Clone, Copy, PartialEq, Eq, Structural)]
#[allow(inconsistent_fields)]
pub enum Action {
    /// Write a word into the configuration space of the controller.
    ConfigWrite { bus: u8, device: u8, function: u8, offset: u8, value: u16 },
    /// Write a byte to an I/O port.
    Out8 { port: u16, value: u8 },
    /// Write a word to an I/O port.
    Out16 { port: u16, value: u16 },
    /// Write a double word to an I/O port.
    Out32 { port: u16, value: u32 },
    /// Read a byte from an I/O port.
    In8 { port: u16 },
    /// Read a word from an I/O port.
    In16 { port: u16 },
    /// Read a double word from an I/O port.
    In32 { port: u16 },
    /// Find the physical address of the DMA buffer.
    TranslateBuffer,
    /// Obtain an interrupt vector for the controller.
    AllocateVector,
    /// Nothing: the controller is ready.
    Ready,
}

/// What the last action gave.
#[derive(Debug, Clone, Copy, PartialEq, Eq, Structural)]
pub enum Event {
    /// The write was made; also what starts the sequence.
    Done,
    /// The byte that was read.
    Byte(u8),
    /// The word that was read.
    Word(u16),
    /// The double word that was read.
    Dword(u32),
    /// The physical address of the DMA buffer, if it has one.
    Physical(Option<u64>),
    /// The interrupt vector.
    Vector(u8),
}

/// The states that the controller goes through.
#[derive(Debug, Clone, Copy, PartialEq, Eq, Structural)]
pub enum State {
    Discovered,
    Resetting,
    BufferProgrammed,
    InterruptArmed,
    Ready,
    /// Ready, with a frame handed to the controller and not yet reported as
    /// sent.
    Transmitting,
    Failed,
}

/// Where the driver stands in its sequence: the action it is waiting for.
#[derive(Debug, Clone, Copy, PartialEq, Eq, Structural)]
pub enum Phase {
    /// Nothing was asked for yet.
    Discovered,
    /// Bus mastering and I/O decoding are being enabled.
    EnablingDevice,
    /// The controller is being powered on.
    PoweringOn,
    /// The reset bit is being set.
    IssuingReset,
    /// The command register is being polled.
    Resetting,
    /// The physical address of the buffer is being found.
    AwaitingAddress,
    /// The receive buffer is being registered.
    ProgrammingBuffer,
    /// The interrupt mask is being set.
    MaskingInterrupts,
    /// The receive configuration is being set.
    ConfiguringReceive,
    /// Receiver and transmitter are being enabled.
    EnablingTransfer,
    /// An interrupt vector is being obtained.
    AwaitingVector,
    /// The interrupt vector is being programmed.
    ProgrammingVector,
    /// The low part of the station address is being read.
    ReadingMacLow,
    /// The high part of the station address is being read.
    ReadingMacHigh,
    /// The controller is ready.
    Ready,
    /// The controller is ready and a frame is on its way out.
    Transmitting,
    /// The sequence failed; the driver is of no further use.
    Failed,
}

/// The driver as the contracts speak of it.
pub struct Nic {
    pub phase: Phase,
    pub bus: u8,
    pub device: u8,
    pub function: u8,
    /// The PCI command word as it was read with the header.
    pub command: u16,
    pub io_base: u16,
    pub mac: Seq<u8>,
    /// Offset into the buffer at which the next frame is staged.
    pub tx_cur: u32,
    /// Polls of the command register that found the reset bit set.
    pub polls: u32,
    /// Low part of the station address, between its two reads.
    pub mac_low: u32,
    pub eeprom_exists: bool,
    /// Offset into the receive ring of the next entry to read.
    pub rx_cur: u32,
    pub buffer: Seq<u8>,
}

/// The six bytes of a station address, from the low register (four bytes)
/// and the high register (two bytes), each least significant byte first.
pub open spec fn mac_bytes(low: u32, high: u16) -> Seq<u8> {
    seq![
        (low & 0xFF) as u8,
        ((low >> 8) & 0xFF) as u8,
        ((low >> 16) & 0xFF) as u8,
        ((low >> 24) & 0xFF) as u8,
        (high & 0xFF) as u8,
        ((high >> 8) & 0xFF) as u8,
    ]
}

/// A poll of the command register found the reset bit set in a value that
/// is not the all-ones of a controller that does not answer: worth a line in
/// the log, though the wait goes on.
pub open spec fn is_odd_reset_status(command: u8) -> bool {
    command & CMD_RESET != 0 && command != 0xFF
}

/// The state that a phase belongs to.
pub open spec fn state_of(phase: Phase) -> State {
    match phase {
        Phase::Discovered => State::Discovered,
        Phase::EnablingDevice
        | Phase::PoweringOn
        | Phase::IssuingReset
        | Phase::Resetting
        | Phase::AwaitingAddress
        | Phase::ProgrammingBuffer
        | Phase::MaskingInterrupts
        | Phase::ConfiguringReceive => State::Resetting,
        Phase::EnablingTransfer
        | Phase::AwaitingVector
        | Phase::ProgrammingVector => State::BufferProgrammed,
        Phase::ReadingMacLow | Phase::ReadingMacHigh => State::InterruptArmed,
        Phase::Ready => State::Ready,
        Phase::Transmitting => State::Transmitting,
        Phase::Failed => State::Failed,
    }
}

/// The controller was brought up: frames can be sent and taken.
pub open spec fn is_up(phase: Phase) -> bool {
    phase == Phase::Ready || phase == Phase::Transmitting
}

/// The I/O base that a header offers: its first base address register is an
/// I/O register whose window lies within the port range.
pub open spec fn io_base_of(header: Header) -> Option<u16> {
    match header.rest_of_header {
        HeaderType::Standard(tail) => match tail.base_address_registers[0] {
            BAR::IO(io) if io.address <= IO_BASE_MAX => Some(io.address as u16),
            _ => None,
        },
        _ => None,
    }
}

/// The header is that of a controller that the driver can take.
pub open spec fn is_controller(header: Header) -> bool {
    &&& header.vendor_id == RTL8139_VENDOR_ID
    &&& header.device_id == RTL8139_DEVICE_ID
    &&& io_base_of(header) is Some
}

/// The driver as it is made from a header and a buffer.
pub open spec fn discovered(header: Header, buffer: Seq<u8>) -> Nic {
    Nic {
        phase: Phase::Discovered,
        bus: header.bus,
        device: header.device,
        function: header.function,
        command: header.command,
        io_base: io_base_of(header).unwrap(),
        mac: Seq::new(6, |i: int| 0u8),
        tx_cur: 0,
        polls: 0,
        mac_low: 0,
        eeprom_exists: false,
        rx_cur: 0,
        buffer,
    }
}

impl Nic {
    /// The driver in another phase.
    pub open spec fn at(self, phase: Phase) -> Nic {
        Nic { phase, ..self }
    }

    /// The port of a register.
    pub open spec fn port(self, register: u16) -> u16 {
        (self.io_base + register) as u16
    }

    /// The base lies low enough for every register to have a port.
    pub open spec fn wf(self) -> bool {
        self.io_base <= IO_BASE_MAX && self.mac.len() == 6
    }
}

/// The driver after an event, and what it asks for next or why it gave up.
///
/// Each phase waits for one kind of event. Any other event is refused as
/// unexpected and leaves the driver as it was, as does any event once the
/// sequence has failed.
pub open spec fn next(nic: Nic, event: Event) -> (Nic, Result<Action, Rtl8139Error>) {
    match (nic.phase, event) {
        (Phase::Discovered, Event::Done) => (
            nic.at(Phase::EnablingDevice),
            Ok(
                Action::ConfigWrite {
                    bus: nic.bus,
                    device: nic.device,
                    function: nic.function,
                    offset: PCI_COMMAND,
                    value: nic.command | PCI_COMMAND_ENABLE,
                },
            ),
        ),
        (Phase::EnablingDevice, Event::Done) => (
            nic.at(Phase::PoweringOn),
            Ok(Action::Out8 { port: nic.port(REG_CONFIG1), value: 0 }),
        ),
        (Phase::PoweringOn, Event::Done) => (
            nic.at(Phase::IssuingReset),
            Ok(Action::Out8 { port: nic.port(REG_COMMAND), value: CMD_RESET }),
        ),
        (Phase::IssuingReset, Event::Done) => (
            Nic { polls: 0, ..nic.at(Phase::Resetting) },
            Ok(Action::In8 { port: nic.port(REG_COMMAND) }),
        ),
        (Phase::Resetting, Event::Byte(command)) => if command & CMD_RESET == 0 {
            (nic.at(Phase::AwaitingAddress), Ok(Action::TranslateBuffer))
        } else if nic.polls + 1 >= RESET_POLLS {
            (nic.at(Phase::Failed), Err(Rtl8139Error::ResetTimeout))
        } else {
            (
                Nic { polls: (nic.polls + 1) as u32, ..nic },
                Ok(Action::In8 { port: nic.port(REG_COMMAND) }),
            )
        },
        (Phase::AwaitingAddress, Event::Physical(Some(address))) => (
            nic.at(Phase::ProgrammingBuffer),
            Ok(Action::Out32 { port: nic.port(REG_RX_BUFFER), value: address as u32 }),
        ),
        (Phase::AwaitingAddress, Event::Physical(None)) => (
            nic.at(Phase::Failed),
            Err(Rtl8139Error::InvalidHeader),
        ),
        (Phase::ProgrammingBuffer, Event::Done) => (
            nic.at(Phase::MaskingInterrupts),
            Ok(Action::Out8 { port: nic.port(REG_INTERRUPT_MASK), value: INTERRUPT_MASK }),
        ),
        (Phase::MaskingInterrupts, Event::Done) => (
            nic.at(Phase::ConfiguringReceive),
            Ok(Action::Out32 { port: nic.port(REG_RX_CONFIG), value: RX_CONFIG }),
        ),
        (Phase::ConfiguringReceive, Event::Done) => (
            nic.at(Phase::EnablingTransfer),
            Ok(Action::Out8 { port: nic.port(REG_COMMAND), value: CMD_ENABLE }),
        ),
        (Phase::EnablingTransfer, Event::Done) => (
            nic.at(Phase::AwaitingVector),
            Ok(Action::AllocateVector),
        ),
        (Phase::AwaitingVector, Event::Vector(vector)) => (
            nic.at(Phase::ProgrammingVector),
            Ok(Action::Out16 { port: nic.port(REG_INTERRUPT_STATUS), value: vector as u16 }),
        ),
        (Phase::ProgrammingVector, Event::Done) => (
            Nic { eeprom_exists: false, ..nic.at(Phase::ReadingMacLow) },
            Ok(Action::In32 { port: nic.port(REG_MAC_LOW) }),
        ),
        (Phase::ReadingMacLow, Event::Dword(low)) => (
            Nic { mac_low: low, ..nic.at(Phase::ReadingMacHigh) },
            Ok(Action::In16 { port: nic.port(REG_MAC_HIGH) }),
        ),
        (Phase::ReadingMacHigh, Event::Word(high)) => (
            Nic { mac: mac_bytes(nic.mac_low, high), ..nic.at(Phase::Ready) },
            Ok(Action::Ready),
        ),
        (Phase::Ready, Event::Done) => (nic, Ok(Action::Ready)),
        (Phase::Transmitting, Event::Done) => (nic, Ok(Action::Ready)),
        _ => (nic, Err(Rtl8139Error::Unexpected)),
    }
}

/// The driver after it was asked to send a frame, and the two register
/// writes that send it or why it was refused.
///
/// A frame is taken where the controller is up and the frame fits between
/// the transmit cursor and the end of the buffer. It is then copied to the
/// cursor, the cursor moves past it and four bytes more, the driver notes
/// that a frame is on its way, and the caller is to write the old cursor to
/// the transmit address register and then the go value to the transmit
/// status register. A frame that is refused changes nothing.
pub open spec fn transmit(nic: Nic, frame: Seq<u8>) -> (Nic, Result<Seq<Action>, Rtl8139Error>) {
    if !is_up(nic.phase) {
        (nic, Err(Rtl8139Error::Unexpected))
    } else if nic.tx_cur + frame.len() > nic.buffer.len() || nic.tx_cur + frame.len() + TX_PAD
        > u32::MAX {
        (nic, Err(Rtl8139Error::BufferFull))
    } else {
        (
            Nic {
                phase: Phase::Transmitting,
                tx_cur: (nic.tx_cur + frame.len() + TX_PAD) as u32,
                buffer: nic.buffer.subrange(0, nic.tx_cur as int) + frame + nic.buffer.subrange(
                    nic.tx_cur + frame.len(),
                    nic.buffer.len() as int,
                ),
                ..nic
            },
            Ok(
                seq![
                    Action::Out32 { port: nic.port(REG_TX_ADDRESS), value: nic.tx_cur },
                    Action::Out32 { port: nic.port(REG_TX_STATUS), value: TX_GO },
                ],
            ),
        )
    }
}

/// The word stored at `at`, least significant byte first.
pub open spec fn word_at(buffer: Seq<u8>, at: int) -> u16 {
    (buffer[at] as u16) | (buffer[at + 1] as u16) << 8
}

/// Where the entry after one with `len` payload bytes at `rx_cur` begins:
/// past header and payload, rounded up to a multiple of four, and back at the
/// start of the ring where that is at or beyond its end.
pub open spec fn next_entry(rx_cur: u32, len: u16) -> u32 {
    (((rx_cur + RX_ENTRY_HEADER + len + 3) / 4 * 4) % (RX_RING_SIZE as int)) as u32
}

/// The driver after it looked at the entry at the read pointer, and the
/// payload of that entry or why there is none.
///
/// An entry is a status word, a length word and as many payload bytes as
/// the length says. Where it lies within the buffer, the read pointer moves
/// to the entry after it, whether or not the controller marked the frame as
/// received intact; only an intact frame is handed out.
pub open spec fn take_entry(nic: Nic) -> (Nic, Result<Seq<u8>, ReceiveError>) {
    let at = nic.rx_cur as int;
    let status = word_at(nic.buffer, at);
    let len = word_at(nic.buffer, at + 2);
    if !is_up(nic.phase) {
        (nic, Err(ReceiveError::NotReady))
    } else if at + RX_ENTRY_HEADER > nic.buffer.len() || at + RX_ENTRY_HEADER + len
        > nic.buffer.len() {
        (nic, Err(ReceiveError::BadEntry))
    } else if status & STATUS_RX_OK == 0 {
        (Nic { rx_cur: next_entry(nic.rx_cur, len), ..nic }, Err(ReceiveError::Hardware(status)))
    } else {
        (
            Nic { rx_cur: next_entry(nic.rx_cur, len), ..nic },
            Ok(nic.buffer.subrange(at + RX_ENTRY_HEADER, at + RX_ENTRY_HEADER + len)),
        )
    }
}

/// The register write that acknowledges an interrupt: the status bits that
/// were read, written back to the interrupt status register, which clears
/// them.
pub open spec fn acknowledgement(nic: Nic, status: u16) -> Action {
    Action::Out16 { port: nic.port(REG_INTERRUPT_STATUS), value: status }
}

/// The status reports a failure of the hardware.
pub open spec fn reports_error(status: u16) -> bool {
    status & STATUS_ERRORS != 0
}

/// The status reports a frame received.
pub open spec fn reports_receive(status: u16) -> bool {
    status & STATUS_RX_OK != 0
}

/// The status reports a frame sent.
pub open spec fn reports_transmit(status: u16) -> bool {
    status & STATUS_TX_OK != 0
}

/// The driver after an interrupt with the given status was serviced. A frame
/// that the status reports as received is taken out of the ring, and a
/// frame that it reports as sent ends the transmission that was under way.
pub open spec fn serviced(nic: Nic, status: u16) -> Nic {
    let taken = if reports_receive(status) {
        take_entry(nic).0
    } else {
        nic
    };
    if reports_transmit(status) && taken.phase == Phase::Transmitting {
        taken.at(Phase::Ready)
    } else {
        taken
    }
}

/// The register writes that quiet the controller: receiver and transmitter
/// off, every interrupt masked.
pub open spec fn quiesce(nic: Nic) -> Seq<Action> {
    seq![
        Action::Out8 { port: nic.port(REG_COMMAND), value: 0 },
        Action::Out8 { port: nic.port(REG_INTERRUPT_MASK), value: 0 },
    ]
}

/// Driver of one RTL8139 controller. It owns the DMA buffer for as long as
/// it exists.
#[derive(Debug)]
pub struct Rtl8139 {
    bar: IOBar,
    eeprom_exists: bool,
    mac: [u8; 6],
    tx_cur: u32,
    phase: Phase,
    bus: u8,
    device: u8,
    function: u8,
    command: u16,
    polls: u32,
    mac_low: u32,
    rx_cur: u32,
    buffer: Vec<u8>,
}

/// What servicing an interrupt came to.
#[derive(Debug, PartialEq, Eq)]
pub struct Serviced {
    /// The register write that acknowledges the interrupt.
    pub acknowledge: Action,
    /// The status reports a failure of the hardware.
    pub error: bool,
    /// The status reports a frame sent.
    pub transmitted: bool,
    /// Where the status reports a frame received: what the receive ring
    /// gave.
    pub received: Option<Result<Vec<u8>, ReceiveError>>,
}

impl View for Rtl8139 {
    type V = Nic;

    closed spec fn view(&self) -> Nic {
        Nic {
            phase: self.phase,
            bus: self.bus,
            device: self.device,
            function: self.function,
            command: self.command,
            io_base: self.bar.address as u16,
            mac: self.mac@,
            tx_cur: self.tx_cur,
            polls: self.polls,
            mac_low: self.mac_low,
            eeprom_exists: self.eeprom_exists,
            rx_cur: self.rx_cur,
            buffer: self.buffer@,
        }
    }
}

impl Rtl8139 {
    /// The base leaves room for the register window. Construction
    /// establishes this and every operation keeps it.
    pub closed spec fn wf(&self) -> bool {
        self.bar.address <= IO_BASE_MAX
    }

    /// A well-formed driver has a well-formed model.
    pub proof fn model_is_well_formed(&self)
        requires
            self.wf(),
        ensures
            self@.wf(),
    {
    }

    /// Assembles a station address from its two registers.
    pub fn get_mac_address(low: u32, high: u16) -> (mac: [u8; 6])
        ensures
            mac@ == mac_bytes(low, high),
    {
        let mac = [
            (low & 0xFF) as u8,
            ((low >> 8) & 0xFF) as u8,
            ((low >> 16) & 0xFF) as u8,
            ((low >> 24) & 0xFF) as u8,
            (high & 0xFF) as u8,
            ((high >> 8) & 0xFF) as u8,
        ];
        assert(mac@ =~= mac_bytes(low, high));
        mac
    }

    /// Whether a value polled from the command register during a reset is
    /// one to log.
    pub fn odd_reset_status(command: u8) -> (odd: bool)
        ensures
            odd == is_odd_reset_status(command),
    {
        command & CMD_RESET != 0 && command != 0xFF
    }

    /// Takes a controller: checks that the header is its, that its first
    /// base address register is an I/O register within the port range, and
    /// that the buffer is large enough.
    pub fn new(header: &Header, dma_buffer: Vec<u8>) -> (driver: Result<Rtl8139, Rtl8139Error>)
        ensures
            match driver {
                Ok(d) => {
                    &&& is_controller(*header)
                    &&& dma_buffer@.len() >= BUFFER_SIZE
                    &&& d@ == discovered(*header, dma_buffer@)
                    &&& d.wf()
                },
                Err(e) => if !is_controller(*header) {
                    e == Rtl8139Error::InvalidHeader
                } else {
                    e == Rtl8139Error::BufferTooSmall && dma_buffer@.len() < BUFFER_SIZE
                },
            },
    {
        if header.vendor_id != RTL8139_VENDOR_ID {
            return Err(Rtl8139Error::InvalidHeader);
        }
        if header.device_id != RTL8139_DEVICE_ID {
            return Err(Rtl8139Error::InvalidHeader);
        }
        let bar = match header.rest_of_header.to_standard() {
            Ok(tail) => match tail.base_address_registers[0] {
                BAR::IO(io) => io,
                BAR::Memory(_) => {
                    return Err(Rtl8139Error::InvalidHeader);
                },
            },
            Err(_) => {
                return Err(Rtl8139Error::InvalidHeader);
            },
        };
        if bar.address > IO_BASE_MAX {
            return Err(Rtl8139Error::InvalidHeader);
        }
        if dma_buffer.len() < BUFFER_SIZE {
            return Err(Rtl8139Error::BufferTooSmall);
        }
        let driver = Rtl8139 {
            bar,
            eeprom_exists: false,
            mac: [0;6],
            tx_cur: 0,
            phase: Phase::Discovered,
            bus: header.bus,
            device: header.device,
            function: header.function,
            command: header.command,
            polls: 0,
            mac_low: 0,
            rx_cur: 0,
            buffer: dma_buffer,
        };
        assert(driver@.mac =~= discovered(*header, dma_buffer@).mac);
        Ok(driver)
    }

    /// The state that the controller is in.
    pub fn state(&self) -> (state: State)
        ensures
            state == state_of(self@.phase),
    {
        match self.phase {
            Phase::Discovered => State::Discovered,
            Phase::EnablingDevice
            | Phase::PoweringOn
            | Phase::IssuingReset
            | Phase::Resetting
            | Phase::AwaitingAddress
            | Phase::ProgrammingBuffer
            | Phase::MaskingInterrupts
            | Phase::ConfiguringReceive => State::Resetting,
            Phase::EnablingTransfer
            | Phase::AwaitingVector
            | Phase::ProgrammingVector => State::BufferProgrammed,
            Phase::ReadingMacLow | Phase::ReadingMacHigh => State::InterruptArmed,
            Phase::Ready => State::Ready,
            Phase::Transmitting => State::Transmitting,
            Phase::Failed => State::Failed,
        }
    }

    /// The station address, all zero until it was read.
    pub fn mac_address(&self) -> (mac: [u8; 6])
        ensures
            mac@ == self@.mac,
    {
        self.mac
    }

    /// The offset into the buffer at which the next frame is staged.
    pub fn transmit_cursor(&self) -> (cursor: u32)
        ensures
            cursor == self@.tx_cur,
    {
        self.tx_cur
    }

    /// The offset into the receive ring of the next entry to read.
    pub fn read_pointer(&self) -> (pointer: u32)
        ensures
            pointer == self@.rx_cur,
    {
        self.rx_cur
    }

    /// The DMA buffer, for the caller to find its address.
    pub fn buffer(&self) -> (buffer: &Vec<u8>)
        ensures
            buffer@ == self@.buffer,
    {
        &self.buffer
    }

    /// Sets the station address from the values of its two registers.
    pub fn set_mac_address(&mut self, low: u32, high: u16)
        ensures
            final(self)@ == (Nic { mac: mac_bytes(low, high), ..old(self)@ }),
            old(self).wf() ==> final(self).wf(),
    {
        self.mac = Self::get_mac_address(low, high);
    }

    fn port(&self, register: u16) -> (port: u16)
        requires
            self.wf(),
            register <= 0xFF,
        ensures
            port == self@.port(register),
    {
        self.bar.address as u16 + register
    }

    /// Takes what the last action gave and returns the next action.
    pub fn step(&mut self, event: Event) -> (action: Result<Action, Rtl8139Error>)
        requires
            old(self).wf(),
        ensures
            final(self).wf(),
            (final(self)@, action) == next(old(self)@, event),
    {
        match (self.phase, event) {
            (Phase::Discovered, Event::Done) => {
                self.phase = Phase::EnablingDevice;
                Ok(
                    Action::ConfigWrite {
                        bus: self.bus,
                        device: self.device,
                        function: self.function,
                        offset: PCI_COMMAND,
                        value: self.command | PCI_COMMAND_ENABLE,
                    },
                )
            },
            (Phase::EnablingDevice, Event::Done) => {
                self.phase = Phase::PoweringOn;
                Ok(Action::Out8 { port: self.port(REG_CONFIG1), value: 0 })
            },
            (Phase::PoweringOn, Event::Done) => {
                self.phase = Phase::IssuingReset;
                Ok(Action::Out8 { port: self.port(REG_COMMAND), value: CMD_RESET })
            },
            (Phase::IssuingReset, Event::Done) => {
                self.phase = Phase::Resetting;
                self.polls = 0;
                Ok(Action::In8 { port: self.port(REG_COMMAND) })
            },
            (Phase::Resetting, Event::Byte(command)) => {
                if command & CMD_RESET == 0 {
                    self.phase = Phase::AwaitingAddress;
                    Ok(Action::TranslateBuffer)
                } else if self.polls >= RESET_POLLS - 1 {
                    self.phase = Phase::Failed;
                    Err(Rtl8139Error::ResetTimeout)
                } else {
                    self.polls = self.polls + 1;
                    Ok(Action::In8 { port: self.port(REG_COMMAND) })
                }
            },
            (Phase::AwaitingAddress, Event::Physical(Some(address))) => {
                self.phase = Phase::ProgrammingBuffer;
                Ok(Action::Out32 { port: self.port(REG_RX_BUFFER), value: address as u32 })
            },
            (Phase::AwaitingAddress, Event::Physical(None)) => {
                self.phase = Phase::Failed;
                Err(Rtl8139Error::InvalidHeader)
            },
            (Phase::ProgrammingBuffer, Event::Done) => {
                self.phase = Phase::MaskingInterrupts;
                Ok(Action::Out8 { port: self.port(REG_INTERRUPT_MASK), value: INTERRUPT_MASK })
            },
            (Phase::MaskingInterrupts, Event::Done) => {
                self.phase = Phase::ConfiguringReceive;
                Ok(Action::Out32 { port: self.port(REG_RX_CONFIG), value: RX_CONFIG })
            },
            (Phase::ConfiguringReceive, Event::Done) => {
                self.phase = Phase::EnablingTransfer;
                Ok(Action::Out8 { port: self.port(REG_COMMAND), value: CMD_ENABLE })
            },
            (Phase::EnablingTransfer, Event::Done) => {
                self.phase = Phase::AwaitingVector;
                Ok(Action::AllocateVector)
            },
            (Phase::AwaitingVector, Event::Vector(vector)) => {
                self.phase = Phase::ProgrammingVector;
                Ok(Action::Out16 { port: self.port(REG_INTERRUPT_STATUS), value: vector as u16 })
            },
            (Phase::ProgrammingVector, Event::Done) => {
                self.phase = Phase::ReadingMacLow;
                self.eeprom_exists = false;
                Ok(Action::In32 { port: self.port(REG_MAC_LOW) })
            },
            (Phase::ReadingMacLow, Event::Dword(low)) => {
                self.phase = Phase::ReadingMacHigh;
                self.mac_low = low;
                Ok(Action::In16 { port: self.port(REG_MAC_HIGH) })
            },
            (Phase::ReadingMacHigh, Event::Word(high)) => {
                self.phase = Phase::Ready;
                self.set_mac_address(self.mac_low, high);
                Ok(Action::Ready)
            },
            (Phase::Ready, Event::Done) => Ok(Action::Ready),
            (Phase::Transmitting, Event::Done) => Ok(Action::Ready),
            _ => Err(Rtl8139Error::Unexpected),
        }
    }

    /// Stages a frame for transmission and returns the two register writes
    /// that send it, in the order in which they are to be made.
    pub fn send_packet(&mut self, packet: &[u8]) -> (writes: Result<[Action; 2], Rtl8139Error>)
        requires
            old(self).wf(),
        ensures
            final(self).wf(),
            final(self)@ == transmit(old(self)@, packet@).0,
            match writes {
                Ok(w) => transmit(old(self)@, packet@).1 == Ok::<Seq<Action>, Rtl8139Error>(w@),
                Err(e) => transmit(old(self)@, packet@).1 == Err::<Seq<Action>, Rtl8139Error>(e),
            },
    {
        match self.phase {
            Phase::Ready | Phase::Transmitting => {},
            _ => {
                return Err(Rtl8139Error::Unexpected);
            },
        }
        let start = self.tx_cur as usize;
        let len = packet.len();
        if start > self.buffer.len() || len > self.buffer.len() - start {
            return Err(Rtl8139Error::BufferFull);
        }
        if len > u32::MAX as usize || self.tx_cur as u64 + len as u64 + TX_PAD as u64
            > u32::MAX as u64 {
            return Err(Rtl8139Error::BufferFull);
        }
        let address = Action::Out32 { port: self.port(REG_TX_ADDRESS), value: self.tx_cur };
        let go = Action::Out32 { port: self.port(REG_TX_STATUS), value: TX_GO };
        let ghost before = self.buffer@;
        for i in 0..len
            invariant
                len == packet@.len(),
                start + len <= before.len() <= usize::MAX,
                self.buffer@.len() == before.len(),
                self.wf(),
                forall|j: int| 0 <= j < start ==> self.buffer@[j] == before[j],
                forall|j: int| 0 <= j < i ==> self.buffer@[start + j] == packet@[j],
                forall|j: int| start + i <= j < before.len() ==> self.buffer@[j] == before[j],
                self.tx_cur == old(self).tx_cur,
                self.phase == old(self).phase,
                self.bar == old(self).bar,
                self.mac == old(self).mac,
                self.bus == old(self).bus,
                self.device == old(self).device,
                self.function == old(self).function,
                self.command == old(self).command,
                self.polls == old(self).polls,
                self.mac_low == old(self).mac_low,
                self.rx_cur == old(self).rx_cur,
                self.eeprom_exists == old(self).eeprom_exists,
        {
            self.buffer.set(start + i, packet[i]);
        }
        self.tx_cur = self.tx_cur + len as u32 + TX_PAD;
        self.phase = Phase::Transmitting;
        let writes = [address, go];
        proof {
            assert(self.buffer@ =~= before.subrange(0, start as int) + packet@ + before.subrange(
                start + len,
                before.len() as int,
            ));
            assert(writes@ =~= transmit(old(self)@, packet@).1.unwrap());
        }
        Ok(writes)
    }

    /// Reads the word stored at `at` in the DMA buffer.
    fn word(&self, at: usize) -> (word: u16)
        requires
            at + 1 < self.buffer@.len(),
        ensures
            word == word_at(self@.buffer, at as int),
    {
        let size = self.buffer.len();
        (self.buffer[at] as u16) | (self.buffer[at + 1] as u16) << 8
    }

    /// Takes the entry at the read pointer out of the receive ring.
    pub fn receive(&mut self) -> (frame: Result<Vec<u8>, ReceiveError>)
        requires
            old(self).wf(),
        ensures
            final(self).wf(),
            final(self)@ == take_entry(old(self)@).0,
            match frame {
                Ok(bytes) => take_entry(old(self)@).1 == Ok::<Seq<u8>, ReceiveError>(bytes@),
                Err(e) => take_entry(old(self)@).1 == Err::<Seq<u8>, ReceiveError>(e),
            },
    {
        match self.phase {
            Phase::Ready | Phase::Transmitting => {},
            _ => {
                return Err(ReceiveError::NotReady);
            },
        }
        let at = self.rx_cur as usize;
        let size = self.buffer.len();
        if size < RX_ENTRY_HEADER as usize || at > size - RX_ENTRY_HEADER as usize {
            return Err(ReceiveError::BadEntry);
        }
        let status = self.word(at);
        let len = self.word(at + 2);
        let first = at + RX_ENTRY_HEADER as usize;
        if len as usize > size - first {
            return Err(ReceiveError::BadEntry);
        }
        let past = self.rx_cur as u64 + RX_ENTRY_HEADER as u64 + len as u64 + 3;
        self.rx_cur = (past / 4 * 4 % RX_RING_SIZE as u64) as u32;
        if status & STATUS_RX_OK == 0 {
            return Err(ReceiveError::Hardware(status));
        }
        let mut bytes = Vec::new();
        for i in 0..len as usize
            invariant
                first + len <= size,
                size == self.buffer@.len(),
                bytes@ == self.buffer@.subrange(first as int, first + i),
        {
            bytes.push(self.buffer[first + i]);
        }
        Ok(bytes)
    }

    /// The register read that an interrupt begins with: the interrupt
    /// status, which [`Rtl8139::interrupt`] then takes.
    pub fn status_request(&self) -> (read: Action)
        requires
            self.wf(),
        ensures
            read == (Action::In16 { port: self@.port(REG_INTERRUPT_STATUS) }),
    {
        Action::In16 { port: self.port(REG_INTERRUPT_STATUS) }
    }

    /// Services an interrupt of the controller, given the interrupt status
    /// that was read. The status is acknowledged whatever it holds. A
    /// failure that it reports is flagged and does not keep a frame that it
    /// also reports from being taken out of the receive ring.
    pub fn interrupt(&mut self, status: u16) -> (serviced: Serviced)
        requires
            old(self).wf(),
        ensures
            final(self).wf(),
            serviced.acknowledge == acknowledgement(old(self)@, status),
            serviced.error == reports_error(status),
            serviced.transmitted == reports_transmit(status),
            serviced.received is Some == reports_receive(status),
            final(self)@ == self::serviced(old(self)@, status),
            match serviced.received {
                Some(Ok(bytes)) => take_entry(old(self)@).1 == Ok::<Seq<u8>, ReceiveError>(
                    bytes@,
                ),
                Some(Err(e)) => take_entry(old(self)@).1 == Err::<Seq<u8>, ReceiveError>(e),
                None => true,
            },
    {
        let acknowledge = Action::Out16 { port: self.port(REG_INTERRUPT_STATUS), value: status };
        let received = if status & STATUS_RX_OK != 0 {
            Some(self.receive())
        } else {
            None
        };
        if status & STATUS_TX_OK != 0 {
            match self.phase {
                Phase::Transmitting => {
                    self.phase = Phase::Ready;
                },
                _ => {},
            }
        }
        Serviced {
            acknowledge,
            error: status & STATUS_ERRORS != 0,
            transmitted: status & STATUS_TX_OK != 0,
            received,
        }
    }

    /// Stores bytes in the DMA buffer as the controller does when it
    /// receives: from `offset` on, provided they fit. Returns whether they
    /// did; bytes that do not fit leave the buffer as it was.
    pub fn deposit(&mut self, offset: usize, bytes: &[u8]) -> (stored: bool)
        requires
            old(self).wf(),
        ensures
            final(self).wf(),
            stored == (offset + bytes@.len() <= old(self)@.buffer.len()),
            final(self)@ == if stored {
                Nic {
                    buffer: old(self)@.buffer.subrange(0, offset as int) + bytes@ + old(
                        self,
                    )@.buffer.subrange(offset + bytes@.len(), old(self)@.buffer.len() as int),
                    ..old(self)@
                }
            } else {
                old(self)@
            },
    {
        let len = bytes.len();
        if offset > self.buffer.len() || len > self.buffer.len() - offset {
            return false;
        }
        let ghost before = self.buffer@;
        for i in 0..len
            invariant
                len == bytes@.len(),
                offset + len <= before.len() <= usize::MAX,
                self.buffer@.len() == before.len(),
                self.wf(),
                forall|j: int| 0 <= j < offset ==> self.buffer@[j] == before[j],
                forall|j: int| 0 <= j < i ==> self.buffer@[offset + j] == bytes@[j],
                forall|j: int| offset + i <= j < before.len() ==> self.buffer@[j] == before[j],
                self.tx_cur == old(self).tx_cur,
                self.phase == old(self).phase,
                self.bar == old(self).bar,
                self.mac == old(self).mac,
                self.bus == old(self).bus,
                self.device == old(self).device,
                self.function == old(self).function,
                self.command == old(self).command,
                self.polls == old(self).polls,
                self.mac_low == old(self).mac_low,
                self.rx_cur == old(self).rx_cur,
                self.eeprom_exists == old(self).eeprom_exists,
        {
            self.buffer.set(offset + i, bytes[i]);
        }
        assert(self.buffer@ =~= before.subrange(0, offset as int) + bytes@ + before.subrange(
            offset + len,
            before.len() as int,
        ));
        true
    }

    /// Gives up the controller: returns the register writes that quiet it
    /// and hands the DMA buffer back.
    pub fn shutdown(self) -> (end: (Vec<Action>, Vec<u8>))
        requires
            self.wf(),
        ensures
            end.0@ == quiesce(self@),
            end.1@ == self@.buffer,
    {
        let mut writes = Vec::new();
        writes.push(Action::Out8 { port: self.port(REG_COMMAND), value: 0 });
        writes.push(Action::Out8 { port: self.port(REG_INTERRUPT_MASK), value: 0 });
        assert(writes@ =~= quiesce(self@));
        (writes, self.buffer)
    }
}

/// The interrupt handler of the controller, given the driver and the
/// interrupt status that was read: services the interrupt and returns what
/// it came to, the acknowledgement for the caller to write among it.
pub fn rtl8139_interrupt_handler(driver: &mut Rtl8139, status: u16) -> (serviced: Serviced)
    requires
        old(driver).wf(),
    ensures
        final(driver).wf(),
        final(driver)@ == self::serviced(old(driver)@, status),
        serviced.acknowledge == acknowledgement(old(driver)@, status),
        serviced.error == reports_error(status),
        serviced.transmitted == reports_transmit(status),
        serviced.received is Some == reports_receive(status),
        match serviced.received {
            Some(Ok(bytes)) => take_entry(old(driver)@).1 == Ok::<Seq<u8>, ReceiveError>(bytes@),
            Some(Err(e)) => take_entry(old(driver)@).1 == Err::<Seq<u8>, ReceiveError>(e),
            None => true,
        },
{
    driver.interrupt(status)
}

/// How far along its sequence a phase is.
pub open spec fn progress(phase: Phase) -> nat {
    match phase {
        Phase::Discovered => 0,
        Phase::EnablingDevice => 1,
        Phase::PoweringOn => 2,
        Phase::IssuingReset => 3,
        Phase::Resetting => 4,
        Phase::AwaitingAddress => 5,
        Phase::ProgrammingBuffer => 6,
        Phase::MaskingInterrupts => 7,
        Phase::ConfiguringReceive => 8,
        Phase::EnablingTransfer => 9,
        Phase::AwaitingVector => 10,
        Phase::ProgrammingVector => 11,
        Phase::ReadingMacLow => 12,
        Phase::ReadingMacHigh => 13,
        Phase::Ready => 14,
        Phase::Transmitting => 15,
        Phase::Failed => 16,
    }
}

/// An event never takes the driver back. It leaves the controller it
/// drives, the DMA buffer and both cursors alone; it keeps a well-formed
/// driver well formed; and where it is refused as unexpected, nothing
/// changes at all.
pub proof fn step_never_goes_back(nic: Nic, event: Event)
    ensures
        progress(next(nic, event).0.phase) >= progress(nic.phase),
        next(nic, event).0.bus == nic.bus,
        next(nic, event).0.device == nic.device,
        next(nic, event).0.function == nic.function,
        next(nic, event).0.io_base == nic.io_base,
        next(nic, event).0.buffer == nic.buffer,
        next(nic, event).0.tx_cur == nic.tx_cur,
        next(nic, event).0.rx_cur == nic.rx_cur,
        nic.wf() ==> next(nic, event).0.wf(),
        next(nic, event).1 == Err::<Action, Rtl8139Error>(Rtl8139Error::Unexpected) ==> next(
            nic,
            event,
        ).0 == nic,
        next(nic, event).1 is Err && next(nic, event).1 != Err::<Action, Rtl8139Error>(
            Rtl8139Error::Unexpected,
        ) ==> next(nic, event).0.phase == Phase::Failed,
        nic.phase == Phase::Failed ==> next(nic, event).0 == nic && next(nic, event).1 is Err,
{
}

/// The sequence that brings the controller up, where the caller does as it
/// is asked and the reset bit is found clear at the first poll. The actions
/// come in this order: enable bus mastering and I/O decoding in the PCI
/// command word, power on, reset, poll the reset bit, find the buffer,
/// register it, unmask the interrupts, configure the receiver, enable
/// receiver and transmitter, obtain and program an interrupt vector, and read
/// the station address. The driver is then ready, with that address.
pub proof fn bring_up_sequence(
    nic: Nic,
    command: u8,
    address: u64,
    vector: u8,
    low: u32,
    high: u16,
)
    requires
        nic.phase == Phase::Discovered,
        command & CMD_RESET == 0,
    ensures
        ({
            let (n1, a1) = next(nic, Event::Done);
            let (n2, a2) = next(n1, Event::Done);
            let (n3, a3) = next(n2, Event::Done);
            let (n4, a4) = next(n3, Event::Done);
            let (n5, a5) = next(n4, Event::Byte(command));
            let (n6, a6) = next(n5, Event::Physical(Some(address)));
            let (n7, a7) = next(n6, Event::Done);
            let (n8, a8) = next(n7, Event::Done);
            let (n9, a9) = next(n8, Event::Done);
            let (n10, a10) = next(n9, Event::Done);
            let (n11, a11) = next(n10, Event::Vector(vector));
            let (n12, a12) = next(n11, Event::Done);
            let (n13, a13) = next(n12, Event::Dword(low));
            let (n14, a14) = next(n13, Event::Word(high));
            &&& a1 == Ok::<Action, Rtl8139Error>(
                Action::ConfigWrite {
                    bus: nic.bus,
                    device: nic.device,
                    function: nic.function,
                    offset: PCI_COMMAND,
                    value: nic.command | PCI_COMMAND_ENABLE,
                },
            )
            &&& a2 == Ok::<Action, Rtl8139Error>(
                Action::Out8 { port: nic.port(REG_CONFIG1), value: 0 },
            )
            &&& a3 == Ok::<Action, Rtl8139Error>(
                Action::Out8 { port: nic.port(REG_COMMAND), value: CMD_RESET },
            )
            &&& a4 == Ok::<Action, Rtl8139Error>(Action::In8 { port: nic.port(REG_COMMAND) })
            &&& a5 == Ok::<Action, Rtl8139Error>(Action::TranslateBuffer)
            &&& a6 == Ok::<Action, Rtl8139Error>(
                Action::Out32 { port: nic.port(REG_RX_BUFFER), value: address as u32 },
            )
            &&& a7 == Ok::<Action, Rtl8139Error>(
                Action::Out8 { port: nic.port(REG_INTERRUPT_MASK), value: INTERRUPT_MASK },
            )
            &&& a8 == Ok::<Action, Rtl8139Error>(
                Action::Out32 { port: nic.port(REG_RX_CONFIG), value: RX_CONFIG },
            )
            &&& a9 == Ok::<Action, Rtl8139Error>(
                Action::Out8 { port: nic.port(REG_COMMAND), value: CMD_ENABLE },
            )
            &&& a10 == Ok::<Action, Rtl8139Error>(Action::AllocateVector)
            &&& a11 == Ok::<Action, Rtl8139Error>(
                Action::Out16 { port: nic.port(REG_INTERRUPT_STATUS), value: vector as u16 },
            )
            &&& a12 == Ok::<Action, Rtl8139Error>(Action::In32 { port: nic.port(REG_MAC_LOW) })
            &&& a13 == Ok::<Action, Rtl8139Error>(Action::In16 { port: nic.port(REG_MAC_HIGH) })
            &&& a14 == Ok::<Action, Rtl8139Error>(Action::Ready)
            &&& state_of(n1.phase) == State::Resetting
            &&& state_of(n9.phase) == State::BufferProgrammed
            &&& state_of(n12.phase) == State::InterruptArmed
            &&& n14.phase == Phase::Ready
            &&& n14.mac == mac_bytes(low, high)
            &&& n14.tx_cur == nic.tx_cur
            &&& n14.buffer == nic.buffer
        }),
{
}

/// The driver after `count` polls in a row found the reset bit set.
pub open spec fn after_polls(nic: Nic, command: u8, count: nat) -> Nic
    decreases count,
{
    if count == 0 {
        nic
    } else {
        next(after_polls(nic, command, (count - 1) as nat), Event::Byte(command)).0
    }
}

/// The wait for the end of a reset is bounded. While polls find the reset
/// bit set the driver counts them, and the poll that uses up the allowance
/// ends the sequence with a timeout.
pub proof fn reset_wait_is_bounded(nic: Nic, command: u8, count: nat)
    requires
        nic.phase == Phase::Resetting,
        nic.polls < RESET_POLLS,
        command & CMD_RESET != 0,
        nic.polls + count <= RESET_POLLS,
    ensures
        nic.polls + count < RESET_POLLS ==> after_polls(nic, command, count) == (Nic {
            polls: (nic.polls + count) as u32,
            ..nic
        }),
        nic.polls + count == RESET_POLLS ==> after_polls(nic, command, count).phase
            == Phase::Failed,
        nic.polls + count == RESET_POLLS ==> next(
            after_polls(nic, command, (count - 1) as nat),
            Event::Byte(command),
        ).1 == Err::<Action, Rtl8139Error>(Rtl8139Error::ResetTimeout),
    decreases count,
{
    if count > 0 {
        reset_wait_is_bounded(nic, command, (count - 1) as nat);
    }
}

/// A frame that is taken moves the transmit cursor forward by its length
/// and four bytes more, lands in the buffer where the cursor was and changes
/// no other byte. A frame that is refused changes nothing, and a frame is
/// refused as too large exactly where it will not fit behind the cursor.
pub proof fn send_advances_cursor(nic: Nic, frame: Seq<u8>)
    requires
        is_up(nic.phase),
    ensures
        ({
            let (after, writes) = transmit(nic, frame);
            &&& writes is Ok <==> nic.tx_cur + frame.len() <= nic.buffer.len() && nic.tx_cur
                + frame.len() + TX_PAD <= u32::MAX
            &&& writes is Err ==> after == nic && writes == Err::<Seq<Action>, Rtl8139Error>(
                Rtl8139Error::BufferFull,
            )
            &&& writes is Ok ==> {
                &&& after.tx_cur == nic.tx_cur + frame.len() + TX_PAD
                &&& after.tx_cur > nic.tx_cur
                &&& after.buffer.len() == nic.buffer.len()
                &&& after.buffer.subrange(nic.tx_cur as int, nic.tx_cur + frame.len()) == frame
                &&& forall|i: int|
                    0 <= i < nic.buffer.len() && !(nic.tx_cur <= i < nic.tx_cur + frame.len())
                        ==> after.buffer[i] == nic.buffer[i]
                &&& after.phase == Phase::Transmitting
            }
        }),
{
    let (after, writes) = transmit(nic, frame);
    if writes is Ok {
        assert(after.buffer.subrange(nic.tx_cur as int, nic.tx_cur + frame.len()) =~= frame);
    }
}

/// Two frames sent one after the other move the transmit cursor forward by
/// the length of each and four bytes more for each.
pub proof fn two_sends_advance(nic: Nic, first: Seq<u8>, second: Seq<u8>)
    requires
        is_up(nic.phase),
        transmit(nic, first).1 is Ok,
        transmit(transmit(nic, first).0, second).1 is Ok,
    ensures
        transmit(transmit(nic, first).0, second).0.tx_cur == nic.tx_cur + first.len() + TX_PAD
            + second.len() + TX_PAD,
        transmit(nic, first).0.tx_cur == nic.tx_cur + first.len() + TX_PAD,
{
}

/// A frame that would run past the end of the buffer is refused, and
/// neither the cursor nor a byte of the buffer changes.
pub proof fn oversized_send_is_refused(nic: Nic, frame: Seq<u8>)
    requires
        is_up(nic.phase),
        nic.tx_cur + frame.len() > nic.buffer.len(),
    ensures
        transmit(nic, frame) == (nic, Err::<Seq<Action>, Rtl8139Error>(Rtl8139Error::BufferFull)),
{
}

/// The two registers of a station address can be read off its six bytes.
pub proof fn mac_bytes_keep_registers(low: u32, high: u16)
    ensures
        mac_bytes(low, high).len() == 6,
        low == (mac_bytes(low, high)[0] as u32) | (mac_bytes(low, high)[1] as u32) << 8 | (
        mac_bytes(low, high)[2] as u32) << 16 | (mac_bytes(low, high)[3] as u32) << 24,
        high == (mac_bytes(low, high)[4] as u16) | (mac_bytes(low, high)[5] as u16) << 8,
{
    assert(low == (((low & 0xFF) as u8) as u32) | ((((low >> 8) & 0xFF) as u8) as u32) << 8 | ((((
    low >> 16) & 0xFF) as u8) as u32) << 16 | ((((low >> 24) & 0xFF) as u8) as u32) << 24)
        by (bit_vector);
    assert(high == (((high & 0xFF) as u8) as u16) | ((((high >> 8) & 0xFF) as u8) as u16) << 8)
        by (bit_vector);
}

/// Taking an entry leaves the read pointer on a multiple of four within the
/// ring, and changes nothing but the read pointer.
pub proof fn read_pointer_stays_in_ring(nic: Nic)
    requires
        nic.rx_cur < RX_RING_SIZE,
        nic.rx_cur % 4 == 0,
    ensures
        take_entry(nic).0.rx_cur < RX_RING_SIZE,
        take_entry(nic).0.rx_cur % 4 == 0,
        take_entry(nic).0 == (Nic { rx_cur: take_entry(nic).0.rx_cur, ..nic }),
{
}

/// Servicing an interrupt keeps the controller up, touches neither the
/// buffer nor the transmit cursor, and ends a transmission exactly where the
/// status reports a frame sent.
pub proof fn interrupt_keeps_controller_up(nic: Nic, status: u16)
    requires
        is_up(nic.phase),
    ensures
        is_up(serviced(nic, status).phase),
        serviced(nic, status).buffer == nic.buffer,
        serviced(nic, status).tx_cur == nic.tx_cur,
        reports_transmit(status) ==> serviced(nic, status).phase == Phase::Ready,
        !reports_transmit(status) ==> serviced(nic, status).phase == nic.phase,
{
}

} // verus!
