use blight_os::pci::config::ConfigSpace;
use blight_os::pci::scan::Discovered;
use blight_os::pci::{
    check_bus, enumerate, enumerate_class, find_network_card, get_base_class, get_device,
    get_network_card, get_secondary_bus, get_sub_class, pci_check_vendor,
};

fn device(vendor: u16, id: u16, class: u8, sub_class: u8, header_type: u8) -> [u32; 64] {
    let mut regs = [0u32; 64];
    regs[0] = (id as u32) << 16 | vendor as u32;
    regs[2] = (class as u32) << 24 | (sub_class as u32) << 16;
    regs[3] = (header_type as u32) << 16;
    regs
}

fn bridge(vendor: u16, id: u16, primary: u8, secondary: u8) -> [u32; 64] {
    let mut regs = device(vendor, id, 0x06, 0x04, 0x01);
    regs[6] = (secondary as u32) << 8 | primary as u32;
    regs
}

fn found(bus: u8, device: u8, function: u8, vendor: u16, id: u16, class: u8, sub: u8) -> Discovered {
    Discovered {
        bus,
        device,
        function,
        vendor_id: vendor,
        device_id: id,
        base_class: class,
        sub_class: sub,
    }
}

#[test]
fn empty_bus_has_no_devices() {
    let space = ConfigSpace::new();
    assert_eq!(check_bus(&space, 0), vec![]);
    assert_eq!(check_bus(&space, 255), vec![]);
}

#[test]
fn empty_topology_has_no_devices() {
    let space = ConfigSpace::new();
    assert_eq!(enumerate(&space), vec![]);
    assert_eq!(get_network_card(&space), None);
    assert_eq!(get_device(&space, 0x10EC, 0x8139), None);
    assert_eq!(find_network_card(&space), vec![]);
}

#[test]
fn devices_are_found_in_slot_order() {
    let mut space = ConfigSpace::new();
    space.insert(0, 9, 0, device(0x8086, 0x100E, 0x02, 0x00, 0x00));
    space.insert(0, 3, 0, device(0x10EC, 0x8139, 0x02, 0x00, 0x00));
    space.insert(0, 31, 0, device(0x1234, 0x1111, 0x03, 0x00, 0x00));
    assert_eq!(
        check_bus(&space, 0),
        vec![
            found(0, 3, 0, 0x10EC, 0x8139, 0x02, 0x00),
            found(0, 9, 0, 0x8086, 0x100E, 0x02, 0x00),
            found(0, 31, 0, 0x1234, 0x1111, 0x03, 0x00),
        ]
    );
    assert_eq!(check_bus(&space, 1), vec![]);
}

#[test]
fn other_functions_need_the_multi_function_flag() {
    let mut space = ConfigSpace::new();
    space.insert(0, 1, 0, device(0x1, 0x10, 0x01, 0x01, 0x00));
    space.insert(0, 1, 1, device(0x1, 0x11, 0x01, 0x01, 0x00));
    space.insert(0, 2, 0, device(0x2, 0x20, 0x0C, 0x03, 0x80));
    space.insert(0, 2, 1, device(0x2, 0x21, 0x0C, 0x03, 0x00));
    space.insert(0, 2, 7, device(0x2, 0x27, 0x0C, 0x03, 0x00));
    assert_eq!(
        check_bus(&space, 0),
        vec![
            found(0, 1, 0, 0x1, 0x10, 0x01, 0x01),
            found(0, 2, 0, 0x2, 0x20, 0x0C, 0x03),
            found(0, 2, 1, 0x2, 0x21, 0x0C, 0x03),
            found(0, 2, 7, 0x2, 0x27, 0x0C, 0x03),
        ]
    );
}

#[test]
fn functions_behind_an_absent_function_zero_are_not_probed() {
    let mut space = ConfigSpace::new();
    space.insert(0, 4, 1, device(0x1, 0x11, 0x01, 0x01, 0x80));
    assert_eq!(check_bus(&space, 0), vec![]);
}

#[test]
fn bridge_brings_in_its_secondary_bus_depth_first() {
    let mut space = ConfigSpace::new();
    space.insert(0, 3, 0, device(0x10EC, 0x8139, 0x02, 0x00, 0x00));
    space.insert(0, 5, 0, bridge(0x8086, 0x2448, 0, 7));
    space.insert(0, 9, 0, device(0x1234, 0x1111, 0x03, 0x00, 0x00));
    space.insert(7, 0, 0, device(0x1AF4, 0x1000, 0x02, 0x00, 0x00));
    space.insert(7, 2, 0, device(0x1B36, 0x000D, 0x0C, 0x03, 0x80));
    space.insert(7, 2, 1, device(0x1B36, 0x000E, 0x0C, 0x03, 0x00));
    space.insert(7, 2, 3, device(0x1B36, 0x000F, 0x0C, 0x03, 0x00));
    assert_eq!(
        check_bus(&space, 0),
        vec![
            found(0, 3, 0, 0x10EC, 0x8139, 0x02, 0x00),
            found(7, 0, 0, 0x1AF4, 0x1000, 0x02, 0x00),
            found(7, 2, 0, 0x1B36, 0x000D, 0x0C, 0x03),
            found(7, 2, 1, 0x1B36, 0x000E, 0x0C, 0x03),
            found(7, 2, 3, 0x1B36, 0x000F, 0x0C, 0x03),
            found(0, 5, 0, 0x8086, 0x2448, 0x06, 0x04),
            found(0, 9, 0, 0x1234, 0x1111, 0x03, 0x00),
        ]
    );
}

#[test]
fn nested_bridges_are_followed() {
    let mut space = ConfigSpace::new();
    space.insert(0, 1, 0, bridge(0xA, 0x1, 0, 1));
    space.insert(1, 0, 0, bridge(0xA, 0x2, 1, 2));
    space.insert(2, 0, 0, device(0xB, 0x3, 0x02, 0x00, 0x00));
    space.insert(1, 1, 0, device(0xB, 0x4, 0x02, 0x00, 0x00));
    assert_eq!(
        check_bus(&space, 0),
        vec![
            found(2, 0, 0, 0xB, 0x3, 0x02, 0x00),
            found(1, 0, 0, 0xA, 0x2, 0x06, 0x04),
            found(1, 1, 0, 0xB, 0x4, 0x02, 0x00),
            found(0, 1, 0, 0xA, 0x1, 0x06, 0x04),
        ]
    );
}

#[test]
fn bridge_to_its_own_bus_ends() {
    let mut space = ConfigSpace::new();
    space.insert(0, 1, 0, bridge(0xA, 0x1, 0, 0));
    space.insert(0, 2, 0, device(0xB, 0x2, 0x02, 0x00, 0x00));
    assert_eq!(
        check_bus(&space, 0),
        vec![found(0, 1, 0, 0xA, 0x1, 0x06, 0x04), found(0, 2, 0, 0xB, 0x2, 0x02, 0x00)]
    );
}

#[test]
fn bridges_in_a_ring_end() {
    let mut space = ConfigSpace::new();
    space.insert(0, 0, 0, bridge(0xA, 0x1, 0, 1));
    space.insert(1, 0, 0, bridge(0xA, 0x2, 1, 2));
    space.insert(2, 0, 0, bridge(0xA, 0x3, 2, 0));
    assert_eq!(
        check_bus(&space, 0),
        vec![
            found(2, 0, 0, 0xA, 0x3, 0x06, 0x04),
            found(1, 0, 0, 0xA, 0x2, 0x06, 0x04),
            found(0, 0, 0, 0xA, 0x1, 0x06, 0x04),
        ]
    );
    assert_eq!(
        check_bus(&space, 1),
        vec![
            found(0, 0, 0, 0xA, 0x1, 0x06, 0x04),
            found(2, 0, 0, 0xA, 0x3, 0x06, 0x04),
            found(1, 0, 0, 0xA, 0x2, 0x06, 0x04),
        ]
    );
}

#[test]
fn a_bus_behind_two_bridges_is_walked_once() {
    let mut space = ConfigSpace::new();
    space.insert(0, 1, 0, bridge(0xA, 0x1, 0, 5));
    space.insert(0, 2, 0, bridge(0xA, 0x2, 0, 5));
    space.insert(5, 0, 0, device(0xB, 0x3, 0x02, 0x00, 0x00));
    assert_eq!(
        check_bus(&space, 0),
        vec![
            found(5, 0, 0, 0xB, 0x3, 0x02, 0x00),
            found(0, 1, 0, 0xA, 0x1, 0x06, 0x04),
            found(0, 2, 0, 0xA, 0x2, 0x06, 0x04),
        ]
    );
}

#[test]
fn walk_of_everything_takes_each_bus_once() {
    let mut space = ConfigSpace::new();
    space.insert(0, 1, 0, bridge(0xA, 0x1, 0, 5));
    space.insert(5, 0, 0, device(0xB, 0x3, 0x02, 0x00, 0x00));
    space.insert(3, 4, 0, device(0xC, 0x4, 0x01, 0x00, 0x00));
    space.insert(255, 31, 0, device(0xD, 0x5, 0x01, 0x00, 0x00));
    assert_eq!(
        enumerate(&space),
        vec![
            found(5, 0, 0, 0xB, 0x3, 0x02, 0x00),
            found(0, 1, 0, 0xA, 0x1, 0x06, 0x04),
            found(3, 4, 0, 0xC, 0x4, 0x01, 0x00),
            found(255, 31, 0, 0xD, 0x5, 0x01, 0x00),
        ]
    );
}

#[test]
fn a_function_of_a_multi_function_device_can_be_a_bridge() {
    let mut space = ConfigSpace::new();
    let mut first = device(0xA, 0x1, 0x01, 0x00, 0x80);
    first[6] = 0x0000_0900;
    space.insert(0, 0, 0, first);
    space.insert(0, 0, 2, bridge(0xA, 0x2, 0, 9));
    space.insert(9, 1, 0, device(0xB, 0x3, 0x02, 0x00, 0x00));
    assert_eq!(
        check_bus(&space, 0),
        vec![
            found(0, 0, 0, 0xA, 0x1, 0x01, 0x00),
            found(9, 1, 0, 0xB, 0x3, 0x02, 0x00),
            found(0, 0, 2, 0xA, 0x2, 0x06, 0x04),
        ]
    );
}

#[test]
fn bridge_is_told_by_both_classes() {
    assert!(found(0, 0, 0, 1, 1, 0x06, 0x04).is_bridge());
    assert!(!found(0, 0, 0, 1, 1, 0x06, 0x00).is_bridge());
    assert!(!found(0, 0, 0, 1, 1, 0x04, 0x06).is_bridge());
    assert!(!found(0, 0, 0, 1, 1, 0x02, 0x04).is_bridge());
}

#[test]
fn class_and_bus_numbers_are_read_from_their_bytes() {
    let mut space = ConfigSpace::new();
    space.insert(0, 5, 0, bridge(0x8086, 0x2448, 0x11, 0x22));
    assert_eq!(get_base_class(&space, 0, 5, 0), 0x06);
    assert_eq!(get_sub_class(&space, 0, 5, 0), 0x04);
    assert_eq!(get_secondary_bus(&space, 0, 5, 0), 0x22);
    assert_eq!(get_base_class(&space, 0, 6, 0), 0xFF);
    assert_eq!(get_sub_class(&space, 0, 6, 0), 0xFF);
}

#[test]
fn vendor_of_empty_slot_is_none() {
    let mut space = ConfigSpace::new();
    space.insert(0, 5, 0, device(0x8086, 0x2448, 0x02, 0x00, 0x00));
    assert_eq!(pci_check_vendor(&space, 0, 5), Some(0x8086));
    assert_eq!(pci_check_vendor(&space, 0, 6), None);
    space.insert(0, 7, 0, device(0xFFFF, 0x2448, 0x02, 0x00, 0x00));
    assert_eq!(pci_check_vendor(&space, 0, 7), None);
}

#[test]
fn lookup_returns_the_first_match_bus_major() {
    let mut space = ConfigSpace::new();
    space.insert(1, 0, 0, device(0x10EC, 0x8139, 0x02, 0x00, 0x00));
    space.insert(0, 20, 0, device(0x10EC, 0x8139, 0x02, 0x00, 0x00));
    space.insert(0, 4, 0, device(0x8086, 0x100E, 0x02, 0x00, 0x00));
    space.insert(0, 2, 0, device(0x1234, 0x1111, 0x03, 0x00, 0x00));
    let card = get_device(&space, 0x10EC, 0x8139).unwrap();
    assert_eq!((card.bus, card.device, card.function), (0, 20, 0));
    assert_eq!(card.vendor_id, 0x10EC);
    assert_eq!(card.device_id, 0x8139);
    let first = get_network_card(&space).unwrap();
    assert_eq!((first.bus, first.device), (0, 4));
    assert_eq!(first.class, 0x02);
    assert_eq!(get_device(&space, 0x10EC, 0x8138), None);
    assert_eq!(get_device(&space, 0x10ED, 0x8139), None);
}

#[test]
fn lookup_skips_what_cannot_be_decoded() {
    let mut space = ConfigSpace::new();
    space.insert(0, 1, 0, device(0x10EC, 0x8139, 0x02, 0x00, 0x01));
    space.insert(0, 2, 0, device(0x10EC, 0x8139, 0x02, 0x00, 0x05));
    space.insert(0, 3, 1, device(0x10EC, 0x8139, 0x02, 0x00, 0x00));
    space.insert(0, 4, 0, device(0xFFFF, 0x8139, 0x02, 0x00, 0x00));
    assert_eq!(get_device(&space, 0x10EC, 0x8139), None);
    assert_eq!(get_device(&space, 0xFFFF, 0x8139), None);
    assert_eq!(get_network_card(&space), None);
    space.insert(200, 31, 0, device(0x10EC, 0x8139, 0x02, 0x00, 0x80));
    let card = get_device(&space, 0x10EC, 0x8139).unwrap();
    assert_eq!((card.bus, card.device), (200, 31));
    assert_eq!(get_network_card(&space), Some(card));
}

#[test]
fn class_listing_is_in_search_order() {
    let mut space = ConfigSpace::new();
    space.insert(2, 0, 0, device(0x1, 0x1, 0x02, 0x00, 0x00));
    space.insert(0, 9, 0, device(0x2, 0x2, 0x02, 0x80, 0x00));
    space.insert(0, 3, 0, device(0x3, 0x3, 0x03, 0x00, 0x00));
    space.insert(0, 1, 0, device(0x4, 0x4, 0x02, 0x00, 0x00));
    let cards = find_network_card(&space);
    let places: Vec<(u8, u8, u16)> = cards.iter().map(|h| (h.bus, h.device, h.vendor_id)).collect();
    assert_eq!(places, vec![(0, 1, 0x4), (0, 9, 0x2), (2, 0, 0x1)]);
    assert_eq!(enumerate_class(&space, 0x02), cards);
    let displays = enumerate_class(&space, 0x03);
    assert_eq!(displays.len(), 1);
    assert_eq!(displays[0].vendor_id, 0x3);
    assert_eq!(enumerate_class(&space, 0x04), vec![]);
    assert_eq!(get_network_card(&space), Some(cards[0]));
}
