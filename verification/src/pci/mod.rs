//! PCI configuration space: register access, header decoding and device
//! discovery.

pub mod config;
pub mod drivers;
pub mod headers;
pub mod scan;

use crate::pci::config::{
    config_address, function_tag, merge_keeps_other_lane, merge_word, merged_lane_reads_back,
    read_dword, register_index, select_word, spec_config_address, spec_merge_word, spec_select_word,
    well_formed, write_dword, ConfigSpace, Registers, REGISTER_COUNT,
};
use crate::pci::headers::{header, Header, MULTI_FUNCTION};
use crate::pci::scan::{
    all_devices, base_class, count_false, device_id, devices_behind, is_multi_function, is_probed,
    lemma_count_bound, lemma_enter_counts, lemma_scan_continues, lemma_scan_skips, lemma_scan_split,
    lemma_unvisited_counts, nowhere, scan_buses, scan_slots, secondary_bus, slot_device,
    slot_function, sub_class, vendor_id, visit, Discovered, Scan, BUS_COUNT, DEVICES_PER_BUS,
    FUNCTIONS_PER_DEVICE, MAX_DEPTH, SLOTS_PER_BUS,
};
use vstd::prelude::*;

verus! {

/// Vendor id that an empty slot reads as.
pub const ABSENT_VENDOR: u16 = 0xFFFF;

/// Base class of bridge devices.
pub const CLASS_BRIDGE: u8 = 0x06;

/// Sub class of PCI-to-PCI bridges within the bridge class.
pub const SUBCLASS_PCI_BRIDGE: u8 = 0x04;

/// Base class of network controllers.
pub const CLASS_NETWORK: u8 = 0x02;

/// The 16-bit word at `offset` in the configuration space of a function: the
/// lane that `offset` selects of the double word that its address word names.
pub open spec fn read_word(regs: Registers, bus: u8, slot: u8, func: u8, offset: u8) -> u16 {
    spec_select_word(read_dword(regs, spec_config_address(bus, slot, func, offset)), offset)
}

/// The registers after the 16-bit word at `offset` was written: the double
/// word is fetched, the lane replaced and the whole written back.
pub open spec fn write_word(
    regs: Registers,
    bus: u8,
    slot: u8,
    func: u8,
    offset: u8,
    data: u16,
) -> Registers {
    let address = spec_config_address(bus, slot, func, offset);
    write_dword(regs, address, spec_merge_word(read_dword(regs, address), offset, data))
}

/// The function at `bus`, `slot`, `func` has registers.
pub open spec fn is_present(regs: Registers, bus: u8, slot: u8, func: u8) -> bool {
    let tag = crate::pci::config::function_tag(spec_config_address(bus, slot, func, 0));
    regs.dom().contains(tag) && regs[tag].len() == REGISTER_COUNT
}

/// Reads a 16-bit word from the configuration space of a function.
pub fn pci_config_read_word(space: &ConfigSpace, bus: u8, slot: u8, func: u8, offset: u8) -> (word:
    u16)
    ensures
        word == read_word(space@, bus, slot, func, offset),
{
    let address = config_address(bus, slot, func, offset);
    select_word(space.read(address), offset)
}

/// Writes a 16-bit word into the configuration space of a function, leaving
/// the other half of its double word untouched.
pub fn pci_config_write_word(
    space: &mut ConfigSpace,
    bus: u8,
    slot: u8,
    func: u8,
    offset: u8,
    data: u16,
)
    ensures
        final(space)@ == write_word(old(space)@, bus, slot, func, offset, data),
{
    let address = config_address(bus, slot, func, offset);
    let current = space.read(address);
    space.write(address, merge_word(current, offset, data));
}

/// What the address word of a register is made of: the enable bit is set,
/// the function it names does not depend on the offset, and the two words of
/// a double word share their register.
proof fn lemma_address_parts(bus: u8, slot: u8, func: u8, offset: u8)
    by (bit_vector)
    ensures
        spec_config_address(bus, slot, func, offset) & 0x8000_0000 != 0,
        (spec_config_address(bus, slot, func, offset) >> 8) & 0xFFFF == (spec_config_address(
            bus,
            slot,
            func,
            0,
        ) >> 8) & 0xFFFF,
        (spec_config_address(bus, slot, func, offset) >> 2) & 0x3F < 64,
        spec_config_address(bus, slot, func, offset ^ 2) == spec_config_address(
            bus,
            slot,
            func,
            offset,
        ),
        (offset & 2 == 0) != ((offset ^ 2) & 2 == 0),
{
}

/// A word written to a function that is present reads back as written.
pub proof fn written_word_reads_back(
    regs: Registers,
    bus: u8,
    slot: u8,
    func: u8,
    offset: u8,
    data: u16,
)
    requires
        is_present(regs, bus, slot, func),
    ensures
        read_word(write_word(regs, bus, slot, func, offset, data), bus, slot, func, offset)
            == data,
{
    lemma_address_parts(bus, slot, func, offset);
    let address = spec_config_address(bus, slot, func, offset);
    merged_lane_reads_back(read_dword(regs, address), offset, data);
}

/// Writing a word leaves the other word of its double word as it was.
pub proof fn write_keeps_other_word(
    regs: Registers,
    bus: u8,
    slot: u8,
    func: u8,
    offset: u8,
    data: u16,
)
    requires
        is_present(regs, bus, slot, func),
    ensures
        read_word(
            write_word(regs, bus, slot, func, offset, data),
            bus,
            slot,
            func,
            offset ^ 2,
        ) == read_word(regs, bus, slot, func, offset ^ 2),
{
    lemma_address_parts(bus, slot, func, offset);
    let address = spec_config_address(bus, slot, func, offset);
    merge_keeps_other_lane(read_dword(regs, address), offset, offset ^ 2, data);
}

/// Writing a word leaves every other double word as it was, in the same
/// function and in all others.
pub proof fn write_keeps_other_registers(
    regs: Registers,
    bus: u8,
    slot: u8,
    func: u8,
    offset: u8,
    data: u16,
    other: u32,
)
    requires
        well_formed(regs),
        function_tag(other) != function_tag(spec_config_address(bus, slot, func, offset))
            || register_index(other) != register_index(
            spec_config_address(bus, slot, func, offset),
        ),
    ensures
        read_dword(write_word(regs, bus, slot, func, offset, data), other) == read_dword(
            regs,
            other,
        ),
{
    lemma_address_parts(bus, slot, func, offset);
    assert(((other >> 2) & 0x3F) < 64) by (bit_vector);
}

/// A write to a function that is not present changes nothing.
pub proof fn write_to_absent_is_dropped(
    regs: Registers,
    bus: u8,
    slot: u8,
    func: u8,
    offset: u8,
    data: u16,
)
    requires
        !regs.dom().contains(function_tag(spec_config_address(bus, slot, func, 0))),
    ensures
        write_word(regs, bus, slot, func, offset, data) == regs,
        read_word(regs, bus, slot, func, offset) == 0xFFFF,
{
    lemma_address_parts(bus, slot, func, offset);
    assert(spec_select_word(0xFFFF_FFFF, offset) == 0xFFFF) by {
        assert((0xFFFF_FFFFu32 & 0xFFFF) as u16 == 0xFFFF && ((0xFFFF_FFFFu32 >> 16)
            & 0xFFFF) as u16 == 0xFFFF) by (bit_vector);
    }
}

/// Reads the base class of a function.
pub fn get_base_class(space: &ConfigSpace, bus: u8, slot: u8, function: u8) -> (class: u8)
    ensures
        class == base_class(space@, bus, slot, function),
{
    (pci_config_read_word(space, bus, slot, function, 0x0A) >> 8) as u8
}

/// Reads the sub class of a function.
pub fn get_sub_class(space: &ConfigSpace, bus: u8, slot: u8, function: u8) -> (class: u8)
    ensures
        class == sub_class(space@, bus, slot, function),
{
    (pci_config_read_word(space, bus, slot, function, 0x0A) & 0xFF) as u8
}

/// Reads the number of the bus behind a bridge.
pub fn get_secondary_bus(space: &ConfigSpace, bus: u8, device: u8, function: u8) -> (behind: u8)
    ensures
        behind == secondary_bus(space@, bus, device, function),
{
    (pci_config_read_word(space, bus, device, function, 0x18) >> 8) as u8
}

/// The vendor of the device in a slot, or `None` where the slot is empty.
pub fn pci_check_vendor(space: &ConfigSpace, bus: u8, slot: u8) -> (vendor: Option<u16>)
    ensures
        vendor == if vendor_id(space@, bus, slot, 0) != ABSENT_VENDOR {
            Some(vendor_id(space@, bus, slot, 0))
        } else {
            None
        },
{
    let vendor = pci_config_read_word(space, bus, slot, 0, 0);
    if vendor != ABSENT_VENDOR {
        Some(vendor)
    } else {
        None
    }
}

/// The walk that has entered the buses flagged in `visited` and reported
/// `found`.
pub open spec fn scan_of(visited: Seq<bool>, found: Seq<Discovered>) -> Scan {
    Scan { visited, found }
}

/// Looks at one function that the walk probes: reports it, after what lies
/// behind it where it is a bridge to a bus not entered before.
fn check_function(
    space: &ConfigSpace,
    bus: u8,
    device: u8,
    function: u8,
    visited: &mut [bool; 256],
    found: &mut Vec<Discovered>,
    Ghost(depth): Ghost<nat>,
)
    requires
        device < DEVICES_PER_BUS,
        function < FUNCTIONS_PER_DEVICE,
        is_probed(space@, bus, device, function),
        depth >= count_false(old(visited)@),
    ensures
        scan_of(final(visited)@, final(found)@) == visit(
            space@,
            bus,
            (8 * device + function) as nat,
            scan_of(old(visited)@, old(found)@),
            depth,
        ),
    decreases depth, 0nat,
{
    let ghost slot = (8 * device + function) as nat;
    assert(slot_device(slot) == device && slot_function(slot) == function);
    let base_class = get_base_class(space, bus, device, function);
    let sub_class = get_sub_class(space, bus, device, function);
    if base_class == CLASS_BRIDGE && sub_class == SUBCLASS_PCI_BRIDGE {
        let behind = get_secondary_bus(space, bus, device, function);
        if !visited[behind as usize] {
            proof {
                lemma_unvisited_counts(visited@, behind as int);
                lemma_enter_counts(visited@, behind as int);
            }
            visited[behind as usize] = true;
            walk_bus(space, behind, visited, found, Ghost((depth - 1) as nat));
        }
    }
    found.push(
        Discovered {
            bus,
            device,
            function,
            vendor_id: pci_config_read_word(space, bus, device, function, 0x00),
            device_id: pci_config_read_word(space, bus, device, function, 0x02),
            base_class,
            sub_class,
        },
    );
}

/// Looks at the functions of one device.
fn check_device(
    space: &ConfigSpace,
    bus: u8,
    device: u8,
    visited: &mut [bool; 256],
    found: &mut Vec<Discovered>,
    Ghost(depth): Ghost<nat>,
)
    requires
        device < DEVICES_PER_BUS,
        depth >= count_false(old(visited)@),
    ensures
        scan_of(final(visited)@, final(found)@) == scan_slots(
            space@,
            bus,
            (8 * device) as nat,
            (8 * device + 8) as nat,
            scan_of(old(visited)@, old(found)@),
            depth,
        ),
    decreases depth, 1nat,
{
    let ghost first = (8 * device) as nat;
    let ghost start = scan_of(visited@, found@);
    assert forall|slot: nat| first <= slot < first + 8 implies slot_device(slot) == device by {}
    if pci_config_read_word(space, bus, device, 0, 0) == ABSENT_VENDOR {
        proof {
            lemma_scan_skips(space@, bus, first, first + 8, start, depth);
        }
        return ;
    }
    assert(slot_device(first) == device && slot_function(first) == 0);
    check_function(space, bus, device, 0, visited, found, Ghost(depth));
    assert(scan_of(visited@, found@) == scan_slots(space@, bus, first, first + 1, start, depth)) by {
        assert(scan_slots(space@, bus, first, first, start, depth) == start);
    }
    let header_type = (pci_config_read_word(space, bus, device, 0, 0x0E) & 0xFF) as u8;
    if header_type & MULTI_FUNCTION == 0 {
        proof {
            let after = scan_of(visited@, found@);
            lemma_scan_skips(space@, bus, first + 1, first + 8, after, depth);
            lemma_scan_split(space@, bus, first, first + 1, first + 8, start, depth);
        }
        return ;
    }
    for function in 1..8u8
        invariant
            device < DEVICES_PER_BUS,
            first == 8 * device,
            is_probed(space@, bus, device, 0),
            is_multi_function(space@, bus, device),
            depth >= count_false(start.visited),
            start.wf(),
            scan_of(visited@, found@) == scan_slots(
                space@,
                bus,
                first,
                (first + function) as nat,
                start,
                depth,
            ),
    {
        let ghost slot = (first + function) as nat;
        let ghost before = scan_of(visited@, found@);
        assert(slot_device(slot) == device && slot_function(slot) == function);
        proof {
            lemma_scan_continues(space@, bus, first, slot, start, depth);
        }
        if pci_config_read_word(space, bus, device, function, 0) != ABSENT_VENDOR {
            check_function(space, bus, device, function, visited, found, Ghost(depth));
        }
        assert(scan_of(visited@, found@) == visit(space@, bus, slot, before, depth));
    }
}

/// Looks at every device of a bus that the walk has just entered.
fn walk_bus(
    space: &ConfigSpace,
    bus: u8,
    visited: &mut [bool; 256],
    found: &mut Vec<Discovered>,
    Ghost(depth): Ghost<nat>,
)
    requires
        depth >= count_false(old(visited)@),
    ensures
        scan_of(final(visited)@, final(found)@) == scan_slots(
            space@,
            bus,
            0,
            SLOTS_PER_BUS as nat,
            scan_of(old(visited)@, old(found)@),
            depth,
        ),
    decreases depth, 2nat,
{
    let ghost start = scan_of(visited@, found@);
    for device in 0..32u8
        invariant
            depth >= count_false(start.visited),
            start.wf(),
            scan_of(visited@, found@) == scan_slots(
                space@,
                bus,
                0,
                (8 * device) as nat,
                start,
                depth,
            ),
    {
        proof {
            lemma_scan_continues(space@, bus, 0, (8 * device) as nat, start, depth);
            lemma_scan_split(
                space@,
                bus,
                0,
                (8 * device) as nat,
                (8 * device + 8) as nat,
                start,
                depth,
            );
        }
        check_device(space, bus, device, visited, found, Ghost(depth));
    }
}

/// Walks the topology from `bus` and returns what was found, in the order in
/// which it was: the devices of the bus in slot order, and just before each
/// bridge what lies on the bus behind it. No bus is walked twice.
pub fn check_bus(space: &ConfigSpace, bus: u8) -> (found: Vec<Discovered>)
    ensures
        found@ == devices_behind(space@, bus),
{
    let mut visited = [false;256];
    let ghost nothing = visited@;
    visited[bus as usize] = true;
    let mut found = Vec::new();
    proof {
        assert(visited@ =~= Scan::start(bus).visited);
        lemma_enter_counts(nothing, bus as int);
        lemma_count_bound(nothing);
    }
    walk_bus(space, bus, &mut visited, &mut found, Ghost(MAX_DEPTH as nat));
    found
}

/// Walks the whole topology: each bus from 0 up that no earlier walk has
/// entered, and from each what lies behind its bridges.
pub fn enumerate(space: &ConfigSpace) -> (found: Vec<Discovered>)
    ensures
        found@ == all_devices(space@),
{
    let mut visited = [false;256];
    let mut found = Vec::new();
    let ghost start = scan_of(visited@, found@);
    assert(start.visited =~= nowhere().visited);
    for bus in 0..256usize
        invariant
            start.wf(),
            scan_of(visited@, found@) == scan_buses(space@, bus as nat, start),
            visited@.len() == BUS_COUNT,
    {
        if !visited[bus] {
            proof {
                lemma_unvisited_counts(visited@, bus as int);
                lemma_enter_counts(visited@, bus as int);
                lemma_count_bound(visited@);
            }
            visited[bus] = true;
            walk_bus(space, bus as u8, &mut visited, &mut found, Ghost(MAX_DEPTH as nat));
        }
    }
    found
}

/// Positions that a search goes through: function 0 of each device of each
/// bus, bus by bus.
pub const POSITIONS: usize = 8192;

/// The header at a position of the search, where a device is present there
/// and its header can be decoded.
#[verifier::opaque]
pub open spec fn position_header(regs: Registers, position: nat) -> Option<Header> {
    let bus = (position / 32) as u8;
    let device = (position % 32) as u8;
    if vendor_id(regs, bus, device, 0) != ABSENT_VENDOR {
        match header(regs, bus, device, 0) {
            Ok(h) => Some(h),
            Err(_) => None,
        }
    } else {
        None
    }
}

/// The first header at or after position `from` that `wanted` accepts.
pub open spec fn first_header(regs: Registers, from: nat, wanted: spec_fn(Header) -> bool)
    -> Option<Header>
    decreases POSITIONS - from,
{
    if from >= POSITIONS {
        None
    } else {
        match position_header(regs, from) {
            Some(h) if wanted(h) => Some(h),
            _ => first_header(regs, from + 1, wanted),
        }
    }
}

/// The headers before position `upto` that `wanted` accepts, in order.
pub open spec fn matching_headers(regs: Registers, upto: nat, wanted: spec_fn(Header) -> bool)
    -> Seq<Header>
    decreases upto,
{
    if upto == 0 {
        Seq::empty()
    } else {
        let before = matching_headers(regs, (upto - 1) as nat, wanted);
        match position_header(regs, (upto - 1) as nat) {
            Some(h) if wanted(h) => before.push(h),
            _ => before,
        }
    }
}

/// A header of the given base class.
pub open spec fn of_class(class: u8) -> spec_fn(Header) -> bool {
    |h: Header| h.class == class
}

/// A header of the given vendor and device identity.
pub open spec fn of_identity(vendor_id: u16, device_id: u16) -> spec_fn(Header) -> bool {
    |h: Header| h.vendor_id == vendor_id && h.device_id == device_id
}

/// The header of the device in a slot, where one is present and its header
/// can be decoded.
fn probe(space: &ConfigSpace, bus: u8, slot: u8) -> (found: Option<Header>)
    requires
        slot < DEVICES_PER_BUS,
    ensures
        found == position_header(space@, (bus * 32 + slot) as nat),
{
    reveal(position_header);
    if pci_config_read_word(space, bus, slot, 0, 0) == ABSENT_VENDOR {
        return None;
    }
    match Header::new(space, bus, slot, 0) {
        Ok(h) => Some(h),
        Err(_) => None,
    }
}

/// Every device whose base class is `class`, in the order of the search.
pub fn enumerate_class(space: &ConfigSpace, class: u8) -> (found: Vec<Header>)
    ensures
        found@ == matching_headers(space@, POSITIONS as nat, of_class(class)),
{
    let mut found = Vec::new();
    for bus in 0..256usize
        invariant
            found@ == matching_headers(space@, (bus * 32) as nat, of_class(class)),
    {
        for slot in 0..32u8
            invariant
                bus < 256,
                found@ == matching_headers(space@, (bus * 32 + slot) as nat, of_class(class)),
        {
            if let Some(h) = probe(space, bus as u8, slot) {
                if h.class == class {
                    found.push(h);
                }
            }
        }
    }
    found
}

/// Every network controller, in the order of the search.
pub fn find_network_card(space: &ConfigSpace) -> (found: Vec<Header>)
    ensures
        found@ == matching_headers(space@, POSITIONS as nat, of_class(CLASS_NETWORK)),
{
    enumerate_class(space, CLASS_NETWORK)
}

/// The first network controller in the order of the search.
pub fn get_network_card(space: &ConfigSpace) -> (found: Option<Header>)
    ensures
        found == first_header(space@, 0, of_class(CLASS_NETWORK)),
{
    for bus in 0..256usize
        invariant
            first_header(space@, 0, of_class(CLASS_NETWORK)) == first_header(
                space@,
                (bus * 32) as nat,
                of_class(CLASS_NETWORK),
            ),
    {
        for slot in 0..32u8
            invariant
                bus < 256,
                first_header(space@, 0, of_class(CLASS_NETWORK)) == first_header(
                    space@,
                    (bus * 32 + slot) as nat,
                    of_class(CLASS_NETWORK),
                ),
        {
            if let Some(h) = probe(space, bus as u8, slot) {
                if h.class == CLASS_NETWORK {
                    return Some(h);
                }
            }
        }
    }
    None
}

/// The first device of the given identity in the order of the search.
pub fn get_device(space: &ConfigSpace, vendor_id: u16, device_id: u16) -> (found: Option<Header>)
    ensures
        found == first_header(space@, 0, of_identity(vendor_id, device_id)),
{
    for bus in 0..256usize
        invariant
            first_header(space@, 0, of_identity(vendor_id, device_id)) == first_header(
                space@,
                (bus * 32) as nat,
                of_identity(vendor_id, device_id),
            ),
    {
        for device in 0..32u8
            invariant
                bus < 256,
                first_header(space@, 0, of_identity(vendor_id, device_id)) == first_header(
                    space@,
                    (bus * 32 + device) as nat,
                    of_identity(vendor_id, device_id),
                ),
        {
            if let Some(h) = probe(space, bus as u8, device) {
                if h.vendor_id == vendor_id && h.device_id == device_id {
                    return Some(h);
                }
            }
        }
    }
    None
}

/// Position `p` holds a header that `wanted` accepts.
pub open spec fn matches_at(regs: Registers, p: nat, wanted: spec_fn(Header) -> bool) -> bool {
    position_header(regs, p) matches Some(h) && wanted(h)
}

/// A search returns the match that comes first, bus by bus and then device
/// by device, and returns nothing only where nothing matches.
pub proof fn first_header_is_first_match(
    regs: Registers,
    from: nat,
    wanted: spec_fn(Header) -> bool,
)
    ensures
        match first_header(regs, from, wanted) {
            Some(h) => exists|p: nat|
                {
                    &&& from <= p < POSITIONS
                    &&& #[trigger] position_header(regs, p) == Some(h)
                    &&& wanted(h)
                    &&& forall|q: nat| from <= q < p ==> !matches_at(regs, q, wanted)
                },
            None => forall|q: nat| from <= q < POSITIONS ==> !matches_at(regs, q, wanted),
        },
    decreases POSITIONS - from,
{
    if from < POSITIONS {
        if matches_at(regs, from, wanted) {
            assert(position_header(regs, from) == first_header(regs, from, wanted));
        } else {
            first_header_is_first_match(regs, from + 1, wanted);
            match first_header(regs, from, wanted) {
                Some(h) => {
                    let p = choose|p: nat|
                        {
                            &&& from + 1 <= p < POSITIONS
                            &&& #[trigger] position_header(regs, p) == Some(h)
                            &&& wanted(h)
                            &&& forall|q: nat| from + 1 <= q < p ==> !matches_at(regs, q, wanted)
                        };
                    assert(forall|q: nat| from <= q < p ==> !matches_at(regs, q, wanted));
                },
                None => {},
            }
        }
    }
}

/// Where every device of every bus is absent, a search finds nothing.
pub proof fn empty_topology_has_no_headers(
    regs: Registers,
    from: nat,
    wanted: spec_fn(Header) -> bool,
)
    requires
        forall|bus: u8, device: u8| device < DEVICES_PER_BUS ==> vendor_id(regs, bus, device, 0)
            == ABSENT_VENDOR,
    ensures
        first_header(regs, from, wanted) is None,
        from <= POSITIONS ==> matching_headers(regs, from, wanted) == Seq::<Header>::empty(),
    decreases POSITIONS - from, from,
{
    reveal(position_header);
    if from < POSITIONS {
        assert(((from % 32) as u8) < DEVICES_PER_BUS);
        assert(position_header(regs, from) is None);
        empty_topology_has_no_headers(regs, from + 1, wanted);
    }
    if 0 < from <= POSITIONS {
        lemma_nothing_matches(regs, from, wanted);
    }
}

/// Positions that hold no header contribute nothing to a listing.
proof fn lemma_nothing_matches(regs: Registers, upto: nat, wanted: spec_fn(Header) -> bool)
    requires
        upto <= POSITIONS,
        forall|bus: u8, device: u8| device < DEVICES_PER_BUS ==> vendor_id(regs, bus, device, 0)
            == ABSENT_VENDOR,
    ensures
        matching_headers(regs, upto, wanted) == Seq::<Header>::empty(),
    decreases upto,
{
    reveal(position_header);
    if upto > 0 {
        let p = (upto - 1) as nat;
        assert(((p % 32) as u8) < DEVICES_PER_BUS);
        assert(position_header(regs, p) is None);
        lemma_nothing_matches(regs, p, wanted);
    }
}

} // verus!
