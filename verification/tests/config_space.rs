use blight_os::pci::config::{config_address, merge_word, select_word, ConfigSpace};
use blight_os::pci::{pci_config_read_word, pci_config_write_word};

fn pattern_registers() -> [u32; 64] {
    let mut regs = [0u32; 64];
    for i in 0..64 {
        regs[i] = 0x0101_0101 * i as u32;
    }
    regs[0] = 0x8139_10EC;
    regs
}

#[test]
fn address_word_is_assembled_from_its_parts() {
    assert_eq!(config_address(0, 0, 0, 0), 0x8000_0000);
    assert_eq!(config_address(1, 2, 3, 0x3C), 0x8001_133C);
    assert_eq!(config_address(0xFF, 31, 7, 0xFC), 0x80FF_FFFC);
    assert_eq!(config_address(0, 0, 0, 0x10), 0x8000_0010);
}

#[test]
fn address_word_drops_the_low_offset_bits() {
    assert_eq!(config_address(1, 2, 3, 0x3D), 0x8001_133C);
    assert_eq!(config_address(1, 2, 3, 0x3E), 0x8001_133C);
    assert_eq!(config_address(1, 2, 3, 0x3F), 0x8001_133C);
    assert_eq!(config_address(0, 0, 0, 0x03), 0x8000_0000);
}

#[test]
fn lane_is_selected_by_bit_one_of_the_offset() {
    assert_eq!(select_word(0x1234_5678, 0x00), 0x5678);
    assert_eq!(select_word(0x1234_5678, 0x02), 0x1234);
    assert_eq!(select_word(0x1234_5678, 0x01), 0x5678);
    assert_eq!(select_word(0x1234_5678, 0x03), 0x1234);
    assert_eq!(select_word(0x1234_5678, 0x0E), 0x1234);
    assert_eq!(select_word(0x1234_5678, 0x0C), 0x5678);
}

#[test]
fn merge_replaces_one_lane_only() {
    assert_eq!(merge_word(0x1234_5678, 0x00, 0xABCD), 0x1234_ABCD);
    assert_eq!(merge_word(0x1234_5678, 0x02, 0xABCD), 0xABCD_5678);
    assert_eq!(merge_word(0xFFFF_FFFF, 0x04, 0x0000), 0xFFFF_0000);
    assert_eq!(merge_word(0x0000_0000, 0x06, 0xFFFF), 0xFFFF_0000);
}

#[test]
fn empty_space_reads_all_ones() {
    let space = ConfigSpace::new();
    assert_eq!(space.read(config_address(0, 0, 0, 0)), 0xFFFF_FFFF);
    assert_eq!(pci_config_read_word(&space, 0, 0, 0, 0), 0xFFFF);
    assert_eq!(pci_config_read_word(&space, 255, 31, 7, 0xFE), 0xFFFF);
}

#[test]
fn present_function_reads_its_registers() {
    let mut space = ConfigSpace::new();
    space.insert(2, 3, 1, pattern_registers());
    assert_eq!(space.read(config_address(2, 3, 1, 0)), 0x8139_10EC);
    assert_eq!(space.read(config_address(2, 3, 1, 0xFC)), 0x3F3F_3F3F);
    assert_eq!(pci_config_read_word(&space, 2, 3, 1, 0), 0x10EC);
    assert_eq!(pci_config_read_word(&space, 2, 3, 1, 2), 0x8139);
    assert_eq!(pci_config_read_word(&space, 2, 3, 1, 0x10), 0x0404);
    assert_eq!(pci_config_read_word(&space, 2, 3, 0, 0), 0xFFFF);
    assert_eq!(pci_config_read_word(&space, 2, 4, 1, 0), 0xFFFF);
    assert_eq!(pci_config_read_word(&space, 3, 3, 1, 0), 0xFFFF);
}

#[test]
fn read_without_enable_bit_gives_all_ones() {
    let mut space = ConfigSpace::new();
    space.insert(0, 0, 0, pattern_registers());
    assert_eq!(space.read(0x8000_0000), 0x8139_10EC);
    assert_eq!(space.read(0x0000_0000), 0xFFFF_FFFF);
}

#[test]
fn insert_replaces_what_was_there() {
    let mut space = ConfigSpace::new();
    space.insert(0, 1, 0, pattern_registers());
    let mut other = [0u32; 64];
    other[0] = 0x1111_2222;
    space.insert(0, 1, 0, other);
    assert_eq!(space.read(config_address(0, 1, 0, 0)), 0x1111_2222);
    assert_eq!(space.read(config_address(0, 1, 0, 4)), 0);
}

#[test]
fn written_word_reads_back_and_spares_the_other_lane() {
    let mut space = ConfigSpace::new();
    space.insert(0, 4, 0, pattern_registers());
    pci_config_write_word(&mut space, 0, 4, 0, 0x04, 0xBEEF);
    assert_eq!(pci_config_read_word(&space, 0, 4, 0, 0x04), 0xBEEF);
    assert_eq!(pci_config_read_word(&space, 0, 4, 0, 0x06), 0x0101);
    assert_eq!(space.read(config_address(0, 4, 0, 0x04)), 0x0101_BEEF);
    pci_config_write_word(&mut space, 0, 4, 0, 0x06, 0xCAFE);
    assert_eq!(space.read(config_address(0, 4, 0, 0x04)), 0xCAFE_BEEF);
    assert_eq!(space.read(config_address(0, 4, 0, 0x00)), 0x8139_10EC);
    assert_eq!(space.read(config_address(0, 4, 0, 0x08)), 0x0202_0202);
}

#[test]
fn write_to_absent_function_is_dropped() {
    let mut space = ConfigSpace::new();
    space.insert(0, 4, 0, pattern_registers());
    pci_config_write_word(&mut space, 0, 5, 0, 0x04, 0xBEEF);
    assert_eq!(pci_config_read_word(&space, 0, 5, 0, 0x04), 0xFFFF);
    assert_eq!(pci_config_read_word(&space, 0, 4, 0, 0x04), 0x0101);
}

#[test]
fn raw_write_changes_one_register() {
    let mut space = ConfigSpace::new();
    space.insert(1, 0, 0, pattern_registers());
    space.insert(1, 1, 0, pattern_registers());
    space.write(config_address(1, 0, 0, 0x20), 0xDEAD_BEEF);
    assert_eq!(space.read(config_address(1, 0, 0, 0x20)), 0xDEAD_BEEF);
    assert_eq!(space.read(config_address(1, 0, 0, 0x24)), 0x0909_0909);
    assert_eq!(space.read(config_address(1, 1, 0, 0x20)), 0x0808_0808);
    space.write(0x0001_0020, 0x1234_5678);
    assert_eq!(space.read(config_address(1, 0, 0, 0x20)), 0xDEAD_BEEF);
}
