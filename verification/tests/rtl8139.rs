use blight_os::pci::config::ConfigSpace;
use blight_os::pci::drivers::rtl8139::{
    rtl8139_interrupt_handler, Action, Event, ReceiveError, Rtl8139, Rtl8139Error, State,
};
use blight_os::pci::headers::Header;

const BUFFER: usize = 8192 + 16 + 1500;

fn controller_registers(vendor: u16, id: u16, bar0: u32, header_type: u8) -> [u32; 64] {
    let mut regs = [0u32; 64];
    regs[0] = (id as u32) << 16 | vendor as u32;
    regs[1] = 0x0290_0002;
    regs[2] = 0x0200_0010;
    regs[3] = (header_type as u32) << 16;
    regs[4] = bar0;
    regs
}

fn header_of(vendor: u16, id: u16, bar0: u32) -> Header {
    let mut space = ConfigSpace::new();
    space.insert(0, 3, 0, controller_registers(vendor, id, bar0, 0));
    Header::new(&space, 0, 3, 0).unwrap()
}

fn controller() -> Rtl8139 {
    Rtl8139::new(&header_of(0x10EC, 0x8139, 0x0000_C001), vec![0u8; BUFFER]).unwrap()
}

fn ready() -> Rtl8139 {
    let mut driver = controller();
    let events = [
        Event::Done,
        Event::Done,
        Event::Done,
        Event::Done,
        Event::Byte(0x00),
        Event::Physical(Some(0x0012_3000)),
        Event::Done,
        Event::Done,
        Event::Done,
        Event::Done,
        Event::Vector(43),
        Event::Done,
        Event::Dword(0x0403_0201),
        Event::Word(0x0605),
    ];
    for event in events {
        driver.step(event).unwrap();
    }
    assert_eq!(driver.state(), State::Ready);
    driver
}

#[test]
fn new_takes_the_controller() {
    let driver = controller();
    assert_eq!(driver.state(), State::Discovered);
    assert_eq!(driver.mac_address(), [0; 6]);
    assert_eq!(driver.buffer().len(), BUFFER);
}

#[test]
fn new_refuses_another_vendor() {
    let header = header_of(0x10ED, 0x8139, 0x0000_C001);
    assert_eq!(Rtl8139::new(&header, vec![0u8; BUFFER]).unwrap_err(), Rtl8139Error::InvalidHeader);
}

#[test]
fn new_refuses_another_device() {
    let header = header_of(0x10EC, 0x8138, 0x0000_C001);
    assert_eq!(Rtl8139::new(&header, vec![0u8; BUFFER]).unwrap_err(), Rtl8139Error::InvalidHeader);
}

#[test]
fn new_refuses_a_memory_bar() {
    let header = header_of(0x10EC, 0x8139, 0xFEBC_0000);
    assert_eq!(Rtl8139::new(&header, vec![0u8; BUFFER]).unwrap_err(), Rtl8139Error::InvalidHeader);
}

#[test]
fn new_refuses_an_io_base_beyond_the_port_range() {
    let header = header_of(0x10EC, 0x8139, 0x0001_0001);
    assert_eq!(Rtl8139::new(&header, vec![0u8; BUFFER]).unwrap_err(), Rtl8139Error::InvalidHeader);
    let header = header_of(0x10EC, 0x8139, 0x0000_FF05);
    assert_eq!(Rtl8139::new(&header, vec![0u8; BUFFER]).unwrap_err(), Rtl8139Error::InvalidHeader);
    let header = header_of(0x10EC, 0x8139, 0x0000_FF01);
    assert!(Rtl8139::new(&header, vec![0u8; BUFFER]).is_ok());
}

#[test]
fn new_refuses_a_small_buffer() {
    let header = header_of(0x10EC, 0x8139, 0x0000_C001);
    assert_eq!(
        Rtl8139::new(&header, vec![0u8; BUFFER - 1]).unwrap_err(),
        Rtl8139Error::BufferTooSmall
    );
    assert_eq!(Rtl8139::new(&header, vec![]).unwrap_err(), Rtl8139Error::BufferTooSmall);
    assert!(Rtl8139::new(&header, vec![0u8; BUFFER]).is_ok());
}

#[test]
fn header_is_checked_before_the_buffer() {
    let header = header_of(0x10EC, 0x8138, 0x0000_C001);
    assert_eq!(Rtl8139::new(&header, vec![]).unwrap_err(), Rtl8139Error::InvalidHeader);
}

#[test]
fn bring_up_asks_for_each_action_in_turn() {
    let mut driver = controller();
    assert_eq!(
        driver.step(Event::Done),
        Ok(Action::ConfigWrite { bus: 0, device: 3, function: 0, offset: 0x04, value: 0x0007 })
    );
    assert_eq!(driver.state(), State::Resetting);
    assert_eq!(driver.step(Event::Done), Ok(Action::Out8 { port: 0xC052, value: 0x00 }));
    assert_eq!(driver.step(Event::Done), Ok(Action::Out8 { port: 0xC037, value: 0x10 }));
    assert_eq!(driver.step(Event::Done), Ok(Action::In8 { port: 0xC037 }));
    assert_eq!(driver.step(Event::Byte(0x10)), Ok(Action::In8 { port: 0xC037 }));
    assert_eq!(driver.step(Event::Byte(0xFF)), Ok(Action::In8 { port: 0xC037 }));
    assert_eq!(driver.step(Event::Byte(0x0D)), Ok(Action::TranslateBuffer));
    assert_eq!(driver.state(), State::Resetting);
    assert_eq!(
        driver.step(Event::Physical(Some(0x1_0012_3000))),
        Ok(Action::Out32 { port: 0xC030, value: 0x0012_3000 })
    );
    assert_eq!(driver.step(Event::Done), Ok(Action::Out8 { port: 0xC03C, value: 0x05 }));
    assert_eq!(driver.step(Event::Done), Ok(Action::Out32 { port: 0xC044, value: 0x8F }));
    assert_eq!(driver.state(), State::Resetting);
    assert_eq!(driver.step(Event::Done), Ok(Action::Out8 { port: 0xC037, value: 0x0C }));
    assert_eq!(driver.state(), State::BufferProgrammed);
    assert_eq!(driver.step(Event::Done), Ok(Action::AllocateVector));
    assert_eq!(driver.step(Event::Vector(43)), Ok(Action::Out16 { port: 0xC03E, value: 43 }));
    assert_eq!(driver.state(), State::BufferProgrammed);
    assert_eq!(driver.step(Event::Done), Ok(Action::In32 { port: 0xC000 }));
    assert_eq!(driver.state(), State::InterruptArmed);
    assert_eq!(driver.step(Event::Dword(0x0403_0201)), Ok(Action::In16 { port: 0xC004 }));
    assert_eq!(driver.mac_address(), [0; 6]);
    assert_eq!(driver.step(Event::Word(0x0605)), Ok(Action::Ready));
    assert_eq!(driver.state(), State::Ready);
    assert_eq!(driver.mac_address(), [1, 2, 3, 4, 5, 6]);
    assert_eq!(driver.step(Event::Done), Ok(Action::Ready));
    assert_eq!(driver.state(), State::Ready);
}

#[test]
fn unexpected_event_changes_nothing() {
    let mut driver = controller();
    assert_eq!(driver.step(Event::Byte(0)), Err(Rtl8139Error::Unexpected));
    assert_eq!(driver.state(), State::Discovered);
    driver.step(Event::Done).unwrap();
    assert_eq!(driver.step(Event::Word(7)), Err(Rtl8139Error::Unexpected));
    assert_eq!(driver.step(Event::Done), Ok(Action::Out8 { port: 0xC052, value: 0x00 }));
    let mut driver = ready();
    assert_eq!(driver.step(Event::Dword(1)), Err(Rtl8139Error::Unexpected));
    assert_eq!(driver.state(), State::Ready);
    assert_eq!(driver.mac_address(), [1, 2, 3, 4, 5, 6]);
}

#[test]
fn odd_reset_status_has_the_reset_bit_and_is_not_all_ones() {
    assert!(Rtl8139::odd_reset_status(0x10));
    assert!(Rtl8139::odd_reset_status(0x1D));
    assert!(!Rtl8139::odd_reset_status(0xFF));
    assert!(!Rtl8139::odd_reset_status(0x00));
    assert!(!Rtl8139::odd_reset_status(0x0C));
}

#[test]
fn reset_that_never_ends_times_out() {
    let mut driver = controller();
    for _ in 0..4 {
        driver.step(Event::Done).unwrap();
    }
    for _ in 0..99_999 {
        assert_eq!(driver.step(Event::Byte(0x10)), Ok(Action::In8 { port: 0xC037 }));
    }
    assert_eq!(driver.step(Event::Byte(0x10)), Err(Rtl8139Error::ResetTimeout));
    assert_eq!(driver.state(), State::Failed);
    assert_eq!(driver.step(Event::Byte(0x00)), Err(Rtl8139Error::Unexpected));
    assert_eq!(driver.step(Event::Done), Err(Rtl8139Error::Unexpected));
    assert_eq!(driver.state(), State::Failed);
}

#[test]
fn reset_that_ends_at_the_last_poll_goes_on() {
    let mut driver = controller();
    for _ in 0..4 {
        driver.step(Event::Done).unwrap();
    }
    for _ in 0..99_999 {
        driver.step(Event::Byte(0x10)).unwrap();
    }
    assert_eq!(driver.step(Event::Byte(0x00)), Ok(Action::TranslateBuffer));
}

#[test]
fn buffer_without_physical_address_fails_the_bring_up() {
    let mut driver = controller();
    for _ in 0..4 {
        driver.step(Event::Done).unwrap();
    }
    driver.step(Event::Byte(0)).unwrap();
    assert_eq!(driver.step(Event::Physical(None)), Err(Rtl8139Error::InvalidHeader));
    assert_eq!(driver.state(), State::Failed);
}

#[test]
fn mac_address_is_assembled_low_byte_first() {
    assert_eq!(Rtl8139::get_mac_address(0x0403_0201, 0x0605), [1, 2, 3, 4, 5, 6]);
    assert_eq!(
        Rtl8139::get_mac_address(0x1200_5452, 0x5634),
        [0x52, 0x54, 0x00, 0x12, 0x34, 0x56]
    );
    assert_eq!(Rtl8139::get_mac_address(0, 0), [0; 6]);
    assert_eq!(Rtl8139::get_mac_address(0xFFFF_FFFF, 0xFFFF), [0xFF; 6]);
}

#[test]
fn set_mac_address_stores_the_assembled_address() {
    let mut driver = controller();
    driver.set_mac_address(0x0403_0201, 0x0605);
    assert_eq!(driver.mac_address(), [1, 2, 3, 4, 5, 6]);
    assert_eq!(driver.state(), State::Discovered);
}

#[test]
fn send_before_ready_is_refused() {
    let mut driver = controller();
    assert_eq!(driver.send_packet(&[1, 2, 3]), Err(Rtl8139Error::Unexpected));
    assert!(driver.buffer().iter().all(|b| *b == 0));
}

#[test]
fn send_twice_advances_the_cursor_and_a_third_is_refused() {
    let mut driver = ready();
    let first = vec![0x11u8; 5000];
    let second = vec![0x22u8; 4000];
    assert_eq!(driver.transmit_cursor(), 0);
    assert_eq!(
        driver.send_packet(&first),
        Ok([
            Action::Out32 { port: 0xC020, value: 0 },
            Action::Out32 { port: 0xC010, value: 1 },
        ])
    );
    assert_eq!(driver.transmit_cursor(), 5004);
    assert_eq!(
        driver.send_packet(&second),
        Ok([
            Action::Out32 { port: 0xC020, value: 5004 },
            Action::Out32 { port: 0xC010, value: 1 },
        ])
    );
    assert_eq!(driver.transmit_cursor(), 9008);
    let before = driver.buffer().clone();
    assert_eq!(&before[..5000], &first[..]);
    assert_eq!(&before[5000..5004], &[0, 0, 0, 0][..]);
    assert_eq!(&before[5004..9004], &second[..]);
    assert!(before[9004..].iter().all(|b| *b == 0));
    assert_eq!(driver.send_packet(&vec![0x33u8; 1000]), Err(Rtl8139Error::BufferFull));
    assert_eq!(driver.transmit_cursor(), 9008);
    assert_eq!(driver.buffer(), &before);
    assert_eq!(
        driver.send_packet(&vec![0x44u8; 700]),
        Ok([
            Action::Out32 { port: 0xC020, value: 9008 },
            Action::Out32 { port: 0xC010, value: 1 },
        ])
    );
    assert_eq!(driver.send_packet(&[]), Err(Rtl8139Error::BufferFull));
}

#[test]
fn sending_is_noted_until_the_frame_is_reported_sent() {
    let mut driver = ready();
    driver.send_packet(&[1, 2, 3]).unwrap();
    assert_eq!(driver.state(), State::Transmitting);
    driver.send_packet(&[4, 5]).unwrap();
    assert_eq!(driver.state(), State::Transmitting);
    assert_eq!(driver.step(Event::Done), Ok(Action::Ready));
    assert_eq!(driver.state(), State::Transmitting);
    assert!(driver.deposit(100, &[0x01, 0x00, 0x01, 0x00, 9]));
    assert_eq!(driver.interrupt(0x0002).received, None);
    assert_eq!(driver.state(), State::Transmitting);
    assert!(driver.interrupt(0x0004).transmitted);
    assert_eq!(driver.state(), State::Ready);
    assert!(driver.interrupt(0x0004).transmitted);
    assert_eq!(driver.state(), State::Ready);
    assert_eq!(driver.transmit_cursor(), 13);
}

#[test]
fn frames_are_taken_while_one_is_being_sent() {
    let mut driver = ready();
    driver.send_packet(&[0x01, 0x00, 0x02, 0x00, 7, 8]).unwrap();
    assert_eq!(driver.state(), State::Transmitting);
    assert_eq!(driver.receive(), Ok(vec![7, 8]));
    assert_eq!(driver.state(), State::Transmitting);
    assert!(driver.deposit(8, &[0x01, 0x00, 0x01, 0x00, 9]));
    let serviced = driver.interrupt(0x0005);
    assert_eq!(serviced.received, Some(Ok(vec![9])));
    assert!(serviced.transmitted);
    assert_eq!(driver.state(), State::Ready);
}

#[test]
fn frame_that_ends_at_the_end_of_the_buffer_is_taken() {
    let mut driver = ready();
    assert!(driver.send_packet(&vec![7u8; BUFFER]).is_ok());
    assert!(driver.buffer().iter().all(|b| *b == 7));
    assert_eq!(driver.send_packet(&[]), Err(Rtl8139Error::BufferFull));
    let mut driver = ready();
    assert_eq!(driver.send_packet(&vec![7u8; BUFFER + 1]), Err(Rtl8139Error::BufferFull));
    assert!(driver.buffer().iter().all(|b| *b == 0));
}

#[test]
fn empty_frame_moves_the_cursor_by_the_pad() {
    let mut driver = ready();
    driver.send_packet(&[]).unwrap();
    assert_eq!(
        driver.send_packet(&[9]).unwrap()[0],
        Action::Out32 { port: 0xC020, value: 4 }
    );
    assert_eq!(driver.buffer()[4], 9);
}

#[test]
fn deposit_stores_bytes_that_fit() {
    let mut driver = controller();
    assert!(driver.deposit(10, &[1, 2, 3]));
    assert_eq!(&driver.buffer()[9..14], &[0, 1, 2, 3, 0][..]);
    assert!(driver.deposit(BUFFER - 1, &[7]));
    assert!(!driver.deposit(BUFFER - 1, &[7, 8]));
    assert!(!driver.deposit(BUFFER + 1, &[]));
    assert!(driver.deposit(BUFFER, &[]));
    assert_eq!(driver.buffer()[BUFFER - 1], 7);
}

#[test]
fn receive_takes_entries_in_turn() {
    let mut driver = ready();
    assert!(driver.deposit(0, &[0x01, 0x00, 0x05, 0x00, 10, 11, 12, 13, 14]));
    assert!(driver.deposit(12, &[0x01, 0x20, 0x02, 0x00, 20, 21]));
    assert_eq!(driver.read_pointer(), 0);
    assert_eq!(driver.receive(), Ok(vec![10, 11, 12, 13, 14]));
    assert_eq!(driver.read_pointer(), 12);
    assert_eq!(driver.receive(), Ok(vec![20, 21]));
    assert_eq!(driver.read_pointer(), 20);
    assert_eq!(driver.receive(), Err(ReceiveError::Hardware(0)));
}

#[test]
fn receive_reports_a_damaged_frame_and_moves_on() {
    let mut driver = ready();
    assert!(driver.deposit(0, &[0x02, 0x00, 0x03, 0x00, 1, 2, 3]));
    assert!(driver.deposit(8, &[0x01, 0x00, 0x01, 0x00, 9]));
    assert_eq!(driver.receive(), Err(ReceiveError::Hardware(0x0002)));
    assert_eq!(driver.receive(), Ok(vec![9]));
}

#[test]
fn receive_refuses_an_entry_that_runs_past_the_buffer() {
    let mut driver = ready();
    assert!(driver.deposit(0, &[0x01, 0x00, 0xFF, 0xFF]));
    assert_eq!(driver.receive(), Err(ReceiveError::BadEntry));
    assert_eq!(driver.receive(), Err(ReceiveError::BadEntry));
    assert!(driver.deposit(0, &[0x01, 0x00, 0x00, 0x00]));
    assert_eq!(driver.receive(), Ok(vec![]));
}

#[test]
fn read_pointer_wraps_at_the_end_of_the_ring() {
    let mut driver = ready();
    assert!(driver.deposit(0, &[0x01, 0x00, 0xF8, 0x1F]));
    assert!(driver.deposit(4, &[0x5A; 8184]));
    assert!(driver.deposit(8188, &[0x01, 0x00, 0x02, 0x00, 7, 8]));
    assert_eq!(driver.receive(), Ok(vec![0x5A; 8184]));
    assert_eq!(driver.read_pointer(), 8188);
    assert_eq!(driver.receive(), Ok(vec![7, 8]));
    assert_eq!(driver.read_pointer(), 4);
    assert!(driver.deposit(4, &[0x01, 0x00, 0x02, 0x00, 0xA5, 0xA6]));
    assert_eq!(driver.receive(), Ok(vec![0xA5, 0xA6]));
}

#[test]
fn receive_before_ready_is_refused() {
    let mut driver = controller();
    assert!(driver.deposit(0, &[0x01, 0x00, 0x01, 0x00, 9]));
    assert_eq!(driver.receive(), Err(ReceiveError::NotReady));
}

#[test]
fn interrupt_begins_with_a_read_of_the_status() {
    assert_eq!(ready().status_request(), Action::In16 { port: 0xC03E });
}

#[test]
fn interrupt_is_acknowledged_and_sorted() {
    let mut driver = ready();
    assert!(driver.deposit(0, &[0x01, 0x00, 0x02, 0x00, 5, 6]));
    let serviced = driver.interrupt(0x0004);
    assert_eq!(serviced.acknowledge, Action::Out16 { port: 0xC03E, value: 0x0004 });
    assert!(serviced.transmitted);
    assert!(!serviced.error);
    assert_eq!(serviced.received, None);
    let serviced = driver.interrupt(0x0001);
    assert_eq!(serviced.acknowledge, Action::Out16 { port: 0xC03E, value: 0x0001 });
    assert!(!serviced.transmitted);
    assert!(!serviced.error);
    assert_eq!(serviced.received, Some(Ok(vec![5, 6])));
    let serviced = driver.interrupt(0x0000);
    assert_eq!(serviced.acknowledge, Action::Out16 { port: 0xC03E, value: 0 });
    assert!(!serviced.transmitted && !serviced.error);
    assert_eq!(serviced.received, None);
}

#[test]
fn handler_services_the_interrupt() {
    let mut driver = ready();
    assert!(driver.deposit(0, &[0x01, 0x00, 0x03, 0x00, 1, 2, 3]));
    driver.send_packet(&[]).unwrap();
    let serviced = rtl8139_interrupt_handler(&mut driver, 0x0005);
    assert_eq!(serviced.acknowledge, Action::Out16 { port: 0xC03E, value: 0x0005 });
    assert_eq!(serviced.received, Some(Ok(vec![1, 2, 3])));
    assert!(serviced.transmitted);
    assert!(!serviced.error);
    assert_eq!(driver.state(), State::Ready);
    assert_eq!(driver.read_pointer(), 8);
}

#[test]
fn interrupt_flags_a_hardware_error_and_goes_on() {
    let mut driver = ready();
    assert!(driver.deposit(0, &[0x01, 0x00, 0x01, 0x00, 5]));
    for status in [0x0002u16, 0x0008, 0x0010, 0x0040, 0x8000] {
        let serviced = driver.interrupt(status);
        assert!(serviced.error);
        assert_eq!(serviced.received, None);
        assert_eq!(serviced.acknowledge, Action::Out16 { port: 0xC03E, value: status });
    }
    let serviced = driver.interrupt(0x0011);
    assert!(serviced.error);
    assert_eq!(serviced.received, Some(Ok(vec![5])));
    assert!(!driver.interrupt(0x2020).error);
}

#[test]
fn shutdown_quiets_the_controller_and_returns_the_buffer() {
    let mut driver = ready();
    driver.send_packet(&[1, 2, 3]).unwrap();
    let (writes, buffer) = driver.shutdown();
    assert_eq!(
        writes,
        vec![Action::Out8 { port: 0xC037, value: 0 }, Action::Out8 { port: 0xC03C, value: 0 }]
    );
    assert_eq!(buffer.len(), BUFFER);
    assert_eq!(&buffer[..4], &[1, 2, 3, 0][..]);
}
