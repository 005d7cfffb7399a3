//! What a depth-first walk of the bus topology finds.
//!
//! A bus has 32 devices of up to 8 functions each: 256 slots, taken in order.
//! A slot is probed where function 0 of its device is present and, for the
//! other functions, where the device says it has several and the function is
//! present too. A probed function is reported. Where it is a PCI-to-PCI
//! bridge whose secondary bus was not entered before, that bus is walked
//! first, so what lies behind a bridge is reported just before the bridge
//! itself. No bus is entered twice, which bounds the walk whatever the
//! registers say.

use crate::pci::config::Registers;
use crate::pci::headers::{header_type_byte, high_byte, low_byte, MULTI_FUNCTION};
use crate::pci::{read_word, ABSENT_VENDOR, CLASS_BRIDGE, SUBCLASS_PCI_BRIDGE};
use vstd::prelude::*;

verus! {

/// Number of buses.
pub const BUS_COUNT: usize = 256;

/// Devices on a bus.
pub const DEVICES_PER_BUS: u8 = 32;

/// Functions of a device.
pub const FUNCTIONS_PER_DEVICE: u8 = 8;

/// Slots of a bus: every function of every device.
pub const SLOTS_PER_BUS: usize = 256;

/// Bridge levels below the starting bus that a walk can ever have to enter:
/// one for each other bus.
pub const MAX_DEPTH: usize = 255;

/// A function that a walk came across.
#[derive(Debug, Clone, Copy, PartialEq, Eq, Structural)]
pub struct Discovered {
    pub bus: u8,
    pub device: u8,
    pub function: u8,
    pub vendor_id: u16,
    pub device_id: u16,
    pub base_class: u8,
    pub sub_class: u8,
}

impl Discovered {
    /// The function is classified as a PCI-to-PCI bridge.
    pub fn is_bridge(&self) -> (bridge: bool)
        ensures
            bridge == (self.base_class == CLASS_BRIDGE && self.sub_class == SUBCLASS_PCI_BRIDGE),
    {
        self.base_class == CLASS_BRIDGE && self.sub_class == SUBCLASS_PCI_BRIDGE
    }
}

/// The vendor identity that a function reads as.
pub open spec fn vendor_id(regs: Registers, bus: u8, device: u8, function: u8) -> u16 {
    read_word(regs, bus, device, function, 0x00)
}

/// The device identity that a function reads as.
pub open spec fn device_id(regs: Registers, bus: u8, device: u8, function: u8) -> u16 {
    read_word(regs, bus, device, function, 0x02)
}

/// The base class of a function.
pub open spec fn base_class(regs: Registers, bus: u8, device: u8, function: u8) -> u8 {
    high_byte(read_word(regs, bus, device, function, 0x0A))
}

/// The sub class of a function.
pub open spec fn sub_class(regs: Registers, bus: u8, device: u8, function: u8) -> u8 {
    low_byte(read_word(regs, bus, device, function, 0x0A))
}

/// The bus behind a bridge.
pub open spec fn secondary_bus(regs: Registers, bus: u8, device: u8, function: u8) -> u8 {
    high_byte(read_word(regs, bus, device, function, 0x18))
}

/// The function is classified as a PCI-to-PCI bridge.
pub open spec fn is_bridge(regs: Registers, bus: u8, device: u8, function: u8) -> bool {
    base_class(regs, bus, device, function) == CLASS_BRIDGE && sub_class(
        regs,
        bus,
        device,
        function,
    ) == SUBCLASS_PCI_BRIDGE
}

/// Function 0 of the device flags it as having several functions.
pub open spec fn is_multi_function(regs: Registers, bus: u8, device: u8) -> bool {
    header_type_byte(regs, bus, device, 0) & MULTI_FUNCTION != 0
}

/// A walk of the bus looks at this function: function 0 of the device is
/// present, and any other function is looked at only on a multi-function
/// device and where it is present itself.
pub open spec fn is_probed(regs: Registers, bus: u8, device: u8, function: u8) -> bool {
    &&& vendor_id(regs, bus, device, 0) != ABSENT_VENDOR
    &&& function != 0 ==> is_multi_function(regs, bus, device) && vendor_id(
        regs,
        bus,
        device,
        function,
    ) != ABSENT_VENDOR
}

/// What is reported of a function.
pub open spec fn record(regs: Registers, bus: u8, device: u8, function: u8) -> Discovered {
    Discovered {
        bus,
        device,
        function,
        vendor_id: vendor_id(regs, bus, device, function),
        device_id: device_id(regs, bus, device, function),
        base_class: base_class(regs, bus, device, function),
        sub_class: sub_class(regs, bus, device, function),
    }
}

/// The device that a slot belongs to.
pub open spec fn slot_device(slot: nat) -> u8 {
    (slot / 8) as u8
}

/// The function that a slot stands for.
pub open spec fn slot_function(slot: nat) -> u8 {
    (slot % 8) as u8
}

/// A walk of the bus looks at this slot.
pub open spec fn slot_probed(regs: Registers, bus: u8, slot: nat) -> bool {
    is_probed(regs, bus, slot_device(slot), slot_function(slot))
}

/// How many entries are `false`.
pub open spec fn count_false(flags: Seq<bool>) -> nat
    decreases flags.len(),
{
    if flags.len() == 0 {
        0
    } else {
        count_false(flags.drop_last()) + if flags.last() {
            0nat
        } else {
            1nat
        }
    }
}

/// How far a walk has come: the buses entered and the functions reported, in
/// the order in which they were.
pub struct Scan {
    pub visited: Seq<bool>,
    pub found: Seq<Discovered>,
}

impl Scan {
    /// There is a flag for each bus.
    pub open spec fn wf(self) -> bool {
        self.visited.len() == BUS_COUNT
    }

    /// A walk about to start at `bus`: that bus entered, nothing reported.
    pub open spec fn start(bus: u8) -> Scan {
        Scan { visited: Seq::new(BUS_COUNT as nat, |b: int| b == bus), found: Seq::empty() }
    }

    /// The walk after it entered `bus`.
    pub open spec fn enter(self, bus: u8) -> Scan {
        Scan { visited: self.visited.update(bus as int, true), found: self.found }
    }

    /// The walk after it reported `d`.
    pub open spec fn report(self, d: Discovered) -> Scan {
        Scan { visited: self.visited, found: self.found.push(d) }
    }

    /// Number of buses not entered so far.
    pub open spec fn unvisited(self) -> nat {
        count_false(self.visited)
    }

    /// `later` continues this walk: every bus entered stays entered and
    /// every report stays where it was.
    pub open spec fn continued_by(self, later: Scan) -> bool {
        &&& later.wf()
        &&& forall|b: int| 0 <= b < BUS_COUNT && self.visited[b] ==> later.visited[b]
        &&& self.found.is_prefix_of(later.found)
        &&& later.unvisited() <= self.unvisited()
    }
}

/// The walk after it looked at one slot of `bus`.
///
/// `depth` bounds how many bridges deep the walk may still go. It only
/// serves to show that the walk ends: a walk that starts with at least as
/// much depth as there are buses left never runs out of it.
pub open spec fn visit(regs: Registers, bus: u8, slot: nat, s: Scan, depth: nat) -> Scan
    decreases depth, 0nat,
{
    let device = slot_device(slot);
    let function = slot_function(slot);
    let behind = secondary_bus(regs, bus, device, function);
    if !slot_probed(regs, bus, slot) {
        s
    } else if is_bridge(regs, bus, device, function) && !s.visited[behind as int] && depth > 0 {
        scan_slots(regs, behind, 0, SLOTS_PER_BUS as nat, s.enter(behind), (depth - 1) as nat).report(
            record(regs, bus, device, function),
        )
    } else {
        s.report(record(regs, bus, device, function))
    }
}

/// The walk after it looked at the slots `from..to` of `bus`, in order.
pub open spec fn scan_slots(
    regs: Registers,
    bus: u8,
    from: nat,
    to: nat,
    s: Scan,
    depth: nat,
) -> Scan
    decreases depth, to + 1,
{
    if to <= from {
        s
    } else {
        visit(regs, bus, (to - 1) as nat, scan_slots(regs, bus, from, (to - 1) as nat, s, depth), depth)
    }
}

/// The walk that started at `bus` and has come to its end.
pub open spec fn walk(regs: Registers, bus: u8) -> Scan {
    scan_slots(regs, bus, 0, SLOTS_PER_BUS as nat, Scan::start(bus), MAX_DEPTH as nat)
}

/// What a walk that starts at `bus` reports.
pub open spec fn devices_behind(regs: Registers, bus: u8) -> Seq<Discovered> {
    walk(regs, bus).found
}

/// The walk has dealt with a slot: where it is probed, the function is
/// reported and, if it is a bridge, the bus behind it was entered.
pub open spec fn slot_covered(regs: Registers, s: Scan, bus: u8, slot: nat) -> bool {
    let device = slot_device(slot);
    let function = slot_function(slot);
    slot_probed(regs, bus, slot) ==> {
        &&& s.found.contains(record(regs, bus, device, function))
        &&& is_bridge(regs, bus, device, function) ==> s.visited[secondary_bus(
            regs,
            bus,
            device,
            function,
        ) as int]
    }
}

/// The walk has dealt with every slot of a bus.
pub open spec fn bus_covered(regs: Registers, s: Scan, bus: u8) -> bool {
    forall|slot: nat| slot < SLOTS_PER_BUS ==> slot_covered(regs, s, bus, slot)
}

/// A walk that has entered no bus and reported nothing.
pub open spec fn nowhere() -> Scan {
    Scan { visited: Seq::new(BUS_COUNT as nat, |b: int| false), found: Seq::empty() }
}

/// The walk after the buses below `upto` were taken in turn, each one walked
/// unless an earlier walk had entered it already.
pub open spec fn scan_buses(regs: Registers, upto: nat, s: Scan) -> Scan
    decreases upto,
{
    if upto == 0 {
        s
    } else {
        let before = scan_buses(regs, (upto - 1) as nat, s);
        let bus = (upto - 1) as u8;
        if before.visited[bus as int] {
            before
        } else {
            scan_slots(
                regs,
                bus,
                0,
                SLOTS_PER_BUS as nat,
                before.enter(bus),
                MAX_DEPTH as nat,
            )
        }
    }
}

/// What a walk of the whole topology reports: every bus from 0 up, and what
/// lies behind its bridges, each bus once.
pub open spec fn all_devices(regs: Registers) -> Seq<Discovered> {
    scan_buses(regs, BUS_COUNT as nat, nowhere()).found
}

/// Setting the flag of a bus that was not entered leaves one bus fewer.
pub proof fn lemma_enter_counts(flags: Seq<bool>, bus: int)
    requires
        0 <= bus < flags.len(),
        !flags[bus],
    ensures
        count_false(flags.update(bus, true)) + 1 == count_false(flags),
    decreases flags.len(),
{
    let after = flags.update(bus, true);
    if bus == flags.len() - 1 {
        assert(after.drop_last() =~= flags.drop_last());
    } else {
        assert(after.drop_last() =~= flags.drop_last().update(bus, true));
        lemma_enter_counts(flags.drop_last(), bus);
    }
}

/// A bus that was not entered is counted.
pub proof fn lemma_unvisited_counts(flags: Seq<bool>, bus: int)
    requires
        0 <= bus < flags.len(),
        !flags[bus],
    ensures
        count_false(flags) >= 1,
    decreases flags.len(),
{
    if bus < flags.len() - 1 {
        lemma_unvisited_counts(flags.drop_last(), bus);
    }
}

/// No more buses are left than there are.
pub proof fn lemma_count_bound(flags: Seq<bool>)
    ensures
        count_false(flags) <= flags.len(),
    decreases flags.len(),
{
    if flags.len() > 0 {
        lemma_count_bound(flags.drop_last());
    }
}

/// Looking at a slot only adds to the walk.
pub proof fn lemma_visit_continues(regs: Registers, bus: u8, slot: nat, s: Scan, depth: nat)
    requires
        s.wf(),
    ensures
        s.continued_by(visit(regs, bus, slot, s, depth)),
    decreases depth, 0nat,
{
    let device = slot_device(slot);
    let function = slot_function(slot);
    let behind = secondary_bus(regs, bus, device, function);
    if is_probed(regs, bus, device, function) && is_bridge(regs, bus, device, function)
        && !s.visited[behind as int] && depth > 0 {
        let entered = s.enter(behind);
        lemma_enter_counts(s.visited, behind as int);
        lemma_scan_continues(regs, behind, 0, SLOTS_PER_BUS as nat, entered, (depth - 1) as nat);
    }
}

/// Looking at a range of slots only adds to the walk.
pub proof fn lemma_scan_continues(
    regs: Registers,
    bus: u8,
    from: nat,
    to: nat,
    s: Scan,
    depth: nat,
)
    requires
        s.wf(),
    ensures
        s.continued_by(scan_slots(regs, bus, from, to, s, depth)),
    decreases depth, to + 1,
{
    if to > from {
        let before = scan_slots(regs, bus, from, (to - 1) as nat, s, depth);
        lemma_scan_continues(regs, bus, from, (to - 1) as nat, s, depth);
        lemma_visit_continues(regs, bus, (to - 1) as nat, before, depth);
    }
}

/// A range of slots can be walked in two parts.
pub proof fn lemma_scan_split(
    regs: Registers,
    bus: u8,
    from: nat,
    mid: nat,
    to: nat,
    s: Scan,
    depth: nat,
)
    requires
        from <= mid <= to,
    ensures
        scan_slots(regs, bus, from, to, s, depth) == scan_slots(
            regs,
            bus,
            mid,
            to,
            scan_slots(regs, bus, from, mid, s, depth),
            depth,
        ),
    decreases to,
{
    if to > mid {
        lemma_scan_split(regs, bus, from, mid, (to - 1) as nat, s, depth);
    }
}

/// Slots that are not probed leave the walk as it was.
pub proof fn lemma_scan_skips(regs: Registers, bus: u8, from: nat, to: nat, s: Scan, depth: nat)
    requires
        forall|slot: nat| from <= slot < to ==> !slot_probed(regs, bus, slot),
    ensures
        scan_slots(regs, bus, from, to, s, depth) == s,
    decreases to,
{
    if to > from {
        lemma_scan_skips(regs, bus, from, (to - 1) as nat, s, depth);
        assert(!slot_probed(regs, bus, (to - 1) as nat));
        assert(visit(regs, bus, (to - 1) as nat, s, depth) == s);
    }
}

/// The depth allowed does not shape the walk: with at least as much depth
/// as there are buses left, a slot is looked at in the same way whatever the
/// depth.
pub proof fn depth_does_not_shape_visit(regs: Registers, bus: u8, slot: nat, s: Scan, d1: nat, d2: nat)
    requires
        s.wf(),
        d1 >= s.unvisited(),
        d2 >= s.unvisited(),
    ensures
        visit(regs, bus, slot, s, d1) == visit(regs, bus, slot, s, d2),
    decreases d1, 0nat,
{
    let device = slot_device(slot);
    let function = slot_function(slot);
    let behind = secondary_bus(regs, bus, device, function);
    if slot_probed(regs, bus, slot) && is_bridge(regs, bus, device, function)
        && !s.visited[behind as int] {
        lemma_unvisited_counts(s.visited, behind as int);
        lemma_enter_counts(s.visited, behind as int);
        depth_does_not_shape_scan(
            regs,
            behind,
            0,
            SLOTS_PER_BUS as nat,
            s.enter(behind),
            (d1 - 1) as nat,
            (d2 - 1) as nat,
        );
    }
}

/// The depth allowed does not shape the walk of a range of slots either.
pub proof fn depth_does_not_shape_scan(
    regs: Registers,
    bus: u8,
    from: nat,
    to: nat,
    s: Scan,
    d1: nat,
    d2: nat,
)
    requires
        s.wf(),
        d1 >= s.unvisited(),
        d2 >= s.unvisited(),
    ensures
        scan_slots(regs, bus, from, to, s, d1) == scan_slots(regs, bus, from, to, s, d2),
    decreases d1, to + 1,
{
    if to > from {
        let last = (to - 1) as nat;
        depth_does_not_shape_scan(regs, bus, from, last, s, d1, d2);
        lemma_scan_continues(regs, bus, from, last, s, d1);
        depth_does_not_shape_visit(regs, bus, last, scan_slots(regs, bus, from, last, s, d1), d1, d2);
    }
}

/// What a walk has dealt with stays dealt with as it goes on.
pub proof fn lemma_covered_stays(regs: Registers, s: Scan, later: Scan, bus: u8, slot: nat)
    requires
        s.continued_by(later),
        s.wf(),
        slot_covered(regs, s, bus, slot),
    ensures
        slot_covered(regs, later, bus, slot),
{
    if slot_probed(regs, bus, slot) {
        let r = record(regs, bus, slot_device(slot), slot_function(slot));
        let i = choose|i: int| 0 <= i < s.found.len() && s.found[i] == r;
        assert(later.found[i] == r);
    }
}

/// Looking at a slot deals with it, and with every slot of each bus that
/// was entered on the way.
pub proof fn lemma_visit_covers(regs: Registers, bus: u8, slot: nat, s: Scan, depth: nat)
    requires
        s.wf(),
        depth >= s.unvisited(),
    ensures
        slot_covered(regs, visit(regs, bus, slot, s, depth), bus, slot),
        forall|b: u8|
            visit(regs, bus, slot, s, depth).visited[b as int] && !s.visited[b as int]
                ==> bus_covered(regs, visit(regs, bus, slot, s, depth), b),
    decreases depth, 0nat,
{
    let device = slot_device(slot);
    let function = slot_function(slot);
    let behind = secondary_bus(regs, bus, device, function);
    let r = record(regs, bus, device, function);
    let after = visit(regs, bus, slot, s, depth);
    if slot_probed(regs, bus, slot) {
        if is_bridge(regs, bus, device, function) && !s.visited[behind as int] {
            lemma_unvisited_counts(s.visited, behind as int);
            lemma_enter_counts(s.visited, behind as int);
            let entered = s.enter(behind);
            let inner = scan_slots(
                regs,
                behind,
                0,
                SLOTS_PER_BUS as nat,
                entered,
                (depth - 1) as nat,
            );
            lemma_scan_covers(regs, behind, SLOTS_PER_BUS as nat, entered, (depth - 1) as nat);
            lemma_scan_continues(
                regs,
                behind,
                0,
                SLOTS_PER_BUS as nat,
                entered,
                (depth - 1) as nat,
            );
            assert(after == inner.report(r));
            assert(inner.continued_by(after));
            assert(after.found.last() == r);
            assert forall|b: u8| after.visited[b as int] && !s.visited[b as int] implies bus_covered(
                regs,
                after,
                b,
            ) by {
                assert(inner.visited[b as int]);
                if b != behind {
                    assert(!entered.visited[b as int]);
                    assert(bus_covered(regs, inner, b));
                }
                assert forall|k: nat| k < SLOTS_PER_BUS implies slot_covered(regs, after, b, k) by {
                    assert(slot_covered(regs, inner, b, k));
                    lemma_covered_stays(regs, inner, after, b, k);
                }
            }
        } else {
            assert(after == s.report(r));
            assert(after.found.last() == r);
        }
    }
}

/// Looking at the first `to` slots of a bus deals with them, and with every
/// slot of each bus that was entered on the way.
pub proof fn lemma_scan_covers(regs: Registers, bus: u8, to: nat, s: Scan, depth: nat)
    requires
        s.wf(),
        depth >= s.unvisited(),
    ensures
        forall|slot: nat|
            slot < to ==> slot_covered(regs, scan_slots(regs, bus, 0, to, s, depth), bus, slot),
        forall|b: u8|
            scan_slots(regs, bus, 0, to, s, depth).visited[b as int] && !s.visited[b as int]
                ==> bus_covered(regs, scan_slots(regs, bus, 0, to, s, depth), b),
    decreases depth, to + 1,
{
    if to > 0 {
        let last = (to - 1) as nat;
        let before = scan_slots(regs, bus, 0, last, s, depth);
        let after = scan_slots(regs, bus, 0, to, s, depth);
        lemma_scan_covers(regs, bus, last, s, depth);
        lemma_scan_continues(regs, bus, 0, last, s, depth);
        lemma_visit_covers(regs, bus, last, before, depth);
        lemma_visit_continues(regs, bus, last, before, depth);
        assert(after == visit(regs, bus, last, before, depth));
        assert forall|slot: nat| slot < to implies slot_covered(regs, after, bus, slot) by {
            if slot < last {
                lemma_covered_stays(regs, before, after, bus, slot);
            }
        }
        assert forall|b: u8| after.visited[b as int] && !s.visited[b as int] implies bus_covered(
            regs,
            after,
            b,
        ) by {
            if before.visited[b as int] {
                assert forall|k: nat| k < SLOTS_PER_BUS implies slot_covered(regs, after, b, k) by {
                    assert(slot_covered(regs, before, b, k));
                    lemma_covered_stays(regs, before, after, b, k);
                }
            }
        }
    }
}

/// A walk leaves nothing out. Every bus it entered, the starting bus
/// among them, has each of its probed functions reported, and the bus behind
/// each bridge that the walk came across was entered too: so the devices
/// behind a bridge are found along with the bridge.
pub proof fn walk_is_complete(regs: Registers, start: u8, bus: u8)
    requires
        walk(regs, start).visited[bus as int],
    ensures
        bus_covered(regs, walk(regs, start), bus),
{
    let begin = Scan::start(start);
    lemma_count_bound(begin.visited);
    lemma_enter_counts(Seq::new(BUS_COUNT as nat, |b: int| false), start as int);
    lemma_count_bound(Seq::new(BUS_COUNT as nat, |b: int| false));
    assert(begin.visited =~= Seq::new(BUS_COUNT as nat, |b: int| false).update(
        start as int,
        true,
    ));
    lemma_scan_covers(regs, start, SLOTS_PER_BUS as nat, begin, MAX_DEPTH as nat);
    lemma_scan_continues(regs, start, 0, SLOTS_PER_BUS as nat, begin, MAX_DEPTH as nat);
    if bus == start {
        assert forall|slot: nat| slot < SLOTS_PER_BUS implies slot_covered(
            regs,
            walk(regs, start),
            bus,
            slot,
        ) by {}
    } else {
        assert(!begin.visited[bus as int]);
        assert(bus_covered(regs, walk(regs, start), bus));
    }
}

/// A bridge on the starting bus brings in the bus behind it: every function
/// that is probed there is among what the walk reports.
pub proof fn bridge_brings_in_secondary_bus(
    regs: Registers,
    start: u8,
    bridge_slot: nat,
    slot: nat,
)
    requires
        bridge_slot < SLOTS_PER_BUS,
        slot < SLOTS_PER_BUS,
        slot_probed(regs, start, bridge_slot),
        is_bridge(regs, start, slot_device(bridge_slot), slot_function(bridge_slot)),
        slot_probed(
            regs,
            secondary_bus(regs, start, slot_device(bridge_slot), slot_function(bridge_slot)),
            slot,
        ),
    ensures
        devices_behind(regs, start).contains(
            record(
                regs,
                secondary_bus(regs, start, slot_device(bridge_slot), slot_function(bridge_slot)),
                slot_device(slot),
                slot_function(slot),
            ),
        ),
        devices_behind(regs, start).contains(
            record(regs, start, slot_device(bridge_slot), slot_function(bridge_slot)),
        ),
{
    let behind = secondary_bus(regs, start, slot_device(bridge_slot), slot_function(bridge_slot));
    lemma_scan_continues(
        regs,
        start,
        0,
        SLOTS_PER_BUS as nat,
        Scan::start(start),
        MAX_DEPTH as nat,
    );
    assert(walk(regs, start).visited[start as int]);
    walk_is_complete(regs, start, start);
    assert(slot_covered(regs, walk(regs, start), start, bridge_slot));
    walk_is_complete(regs, start, behind);
    assert(slot_covered(regs, walk(regs, start), behind, slot));
}

/// Where the walk comes to a bridge whose secondary bus it has not entered,
/// it walks that bus at once, from its first slot to its last, and reports
/// the bridge right after: depth first, with the devices behind a bridge
/// standing just before the bridge itself.
pub proof fn bridge_is_walked_depth_first(
    regs: Registers,
    bus: u8,
    slot: nat,
    s: Scan,
    depth: nat,
)
    requires
        s.wf(),
        depth >= s.unvisited(),
        slot_probed(regs, bus, slot),
        is_bridge(regs, bus, slot_device(slot), slot_function(slot)),
        !s.visited[secondary_bus(regs, bus, slot_device(slot), slot_function(slot)) as int],
    ensures
        depth > 0,
        visit(regs, bus, slot, s, depth) == scan_slots(
            regs,
            secondary_bus(regs, bus, slot_device(slot), slot_function(slot)),
            0,
            SLOTS_PER_BUS as nat,
            s.enter(secondary_bus(regs, bus, slot_device(slot), slot_function(slot))),
            (depth - 1) as nat,
        ).report(record(regs, bus, slot_device(slot), slot_function(slot))),
{
    lemma_unvisited_counts(
        s.visited,
        secondary_bus(regs, bus, slot_device(slot), slot_function(slot)) as int,
    );
}

/// A bus on which every device is absent adds nothing to a walk.
pub proof fn empty_bus_adds_nothing(regs: Registers, bus: u8, s: Scan, depth: nat)
    requires
        forall|device: u8| device < DEVICES_PER_BUS ==> vendor_id(regs, bus, device, 0)
            == ABSENT_VENDOR,
    ensures
        scan_slots(regs, bus, 0, SLOTS_PER_BUS as nat, s, depth) == s,
{
    assert forall|slot: nat| slot < SLOTS_PER_BUS implies !slot_probed(regs, bus, slot) by {
        assert(slot_device(slot) < DEVICES_PER_BUS);
    }
    lemma_scan_skips(regs, bus, 0, SLOTS_PER_BUS as nat, s, depth);
}

/// A walk that starts on a bus on which every device is absent finds
/// nothing.
pub proof fn empty_bus_has_no_devices(regs: Registers, bus: u8)
    requires
        forall|device: u8| device < DEVICES_PER_BUS ==> vendor_id(regs, bus, device, 0)
            == ABSENT_VENDOR,
    ensures
        devices_behind(regs, bus) == Seq::<Discovered>::empty(),
{
    empty_bus_adds_nothing(regs, bus, Scan::start(bus), MAX_DEPTH as nat);
}

/// Where every device of every bus is absent, the walk of the whole
/// topology finds nothing.
pub proof fn empty_topology_has_no_devices(regs: Registers)
    requires
        forall|bus: u8, device: u8| device < DEVICES_PER_BUS ==> vendor_id(regs, bus, device, 0)
            == ABSENT_VENDOR,
    ensures
        all_devices(regs) == Seq::<Discovered>::empty(),
{
    lemma_empty_buses(regs, BUS_COUNT as nat, nowhere());
}

/// Taking empty buses in turn reports nothing.
proof fn lemma_empty_buses(regs: Registers, upto: nat, s: Scan)
    requires
        upto <= BUS_COUNT,
        forall|bus: u8, device: u8| device < DEVICES_PER_BUS ==> vendor_id(regs, bus, device, 0)
            == ABSENT_VENDOR,
    ensures
        scan_buses(regs, upto, s).found == s.found,
    decreases upto,
{
    if upto > 0 {
        lemma_empty_buses(regs, (upto - 1) as nat, s);
        let before = scan_buses(regs, (upto - 1) as nat, s);
        let bus = (upto - 1) as u8;
        empty_bus_adds_nothing(regs, bus, before.enter(bus), MAX_DEPTH as nat);
    }
}

/// The slot that a report is about.
pub open spec fn slot_of(d: Discovered) -> nat {
    (8 * d.device + d.function) as nat
}

/// No two reports are about the same function.
pub open spec fn reported_once(found: Seq<Discovered>) -> bool {
    forall|i: int, j: int|
        0 <= i < j < found.len() ==> !(found[i].bus == found[j].bus && found[i].device
            == found[j].device && found[i].function == found[j].function)
}

/// Every report is about a function on a bus that the walk has entered.
pub open spec fn grounded(s: Scan) -> bool {
    forall|i: int| 0 <= i < s.found.len() ==> s.visited[(#[trigger] s.found[i]).bus as int]
}

/// Looking at a slot reports it at most once, and reports nothing that was
/// reported before.
proof fn lemma_visit_tidy(regs: Registers, bus: u8, slot: nat, s: Scan, depth: nat)
    requires
        s.wf(),
        s.visited[bus as int],
        slot < SLOTS_PER_BUS,
        grounded(s),
        reported_once(s.found),
        forall|i: int|
            0 <= i < s.found.len() && (#[trigger] s.found[i]).bus == bus ==> slot_of(s.found[i])
                < slot,
    ensures
        grounded(visit(regs, bus, slot, s, depth)),
        reported_once(visit(regs, bus, slot, s, depth).found),
        forall|i: int|
            s.found.len() <= i < visit(regs, bus, slot, s, depth).found.len() ==> {
                let r = #[trigger] visit(regs, bus, slot, s, depth).found[i];
                (r.bus == bus && slot_of(r) == slot) || !s.visited[r.bus as int]
            },
    decreases depth, 0nat,
{
    let device = slot_device(slot);
    let function = slot_function(slot);
    let behind = secondary_bus(regs, bus, device, function);
    let r = record(regs, bus, device, function);
    let after = visit(regs, bus, slot, s, depth);
    lemma_visit_continues(regs, bus, slot, s, depth);
    assert(slot_of(r) == slot);
    if slot_probed(regs, bus, slot) {
        if is_bridge(regs, bus, device, function) && !s.visited[behind as int] && depth > 0 {
            let entered = s.enter(behind);
            let inner = scan_slots(
                regs,
                behind,
                0,
                SLOTS_PER_BUS as nat,
                entered,
                (depth - 1) as nat,
            );
            assert(grounded(entered));
            lemma_scan_tidy(regs, behind, SLOTS_PER_BUS as nat, entered, (depth - 1) as nat);
            lemma_scan_continues(
                regs,
                behind,
                0,
                SLOTS_PER_BUS as nat,
                entered,
                (depth - 1) as nat,
            );
            assert(after == inner.report(r));
            assert forall|i: int| 0 <= i < inner.found.len() implies !((#[trigger] inner.found[i]).bus
                == bus && slot_of(inner.found[i]) == slot) by {
                if i < s.found.len() {
                    assert(inner.found[i] == s.found[i]);
                }
            }
            assert(grounded(after)) by {
                assert forall|i: int| 0 <= i < after.found.len() implies after.visited[(
                #[trigger] after.found[i]).bus as int] by {
                    if i < inner.found.len() {
                        assert(after.found[i] == inner.found[i]);
                    }
                }
            }
            assert(reported_once(after.found)) by {
                assert forall|i: int, j: int| 0 <= i < j < after.found.len() implies !(
                after.found[i].bus == after.found[j].bus && after.found[i].device
                    == after.found[j].device && after.found[i].function
                    == after.found[j].function) by {
                    assert(after.found[i] == inner.found[i]);
                    if j < inner.found.len() {
                        assert(after.found[j] == inner.found[j]);
                    }
                }
            }
            assert forall|i: int| s.found.len() <= i < after.found.len() implies {
                let d = #[trigger] after.found[i];
                (d.bus == bus && slot_of(d) == slot) || !s.visited[d.bus as int]
            } by {
                if i < inner.found.len() {
                    assert(after.found[i] == inner.found[i]);
                }
            }
        } else {
            assert(after == s.report(r));
            assert(reported_once(after.found)) by {
                assert forall|i: int, j: int| 0 <= i < j < after.found.len() implies !(
                after.found[i].bus == after.found[j].bus && after.found[i].device
                    == after.found[j].device && after.found[i].function
                    == after.found[j].function) by {
                    assert(after.found[i] == s.found[i]);
                    if j < s.found.len() {
                        assert(after.found[j] == s.found[j]);
                    }
                }
            }
            assert(grounded(after)) by {
                assert forall|i: int| 0 <= i < after.found.len() implies after.visited[(
                #[trigger] after.found[i]).bus as int] by {
                    if i < s.found.len() {
                        assert(after.found[i] == s.found[i]);
                    }
                }
            }
        }
    }
}

/// Looking at the first `to` slots of a bus that was just entered reports
/// each function at most once, and reports nothing that was reported before.
proof fn lemma_scan_tidy(regs: Registers, bus: u8, to: nat, s: Scan, depth: nat)
    requires
        s.wf(),
        s.visited[bus as int],
        to <= SLOTS_PER_BUS,
        grounded(s),
        reported_once(s.found),
        forall|i: int| 0 <= i < s.found.len() ==> (#[trigger] s.found[i]).bus != bus,
    ensures
        grounded(scan_slots(regs, bus, 0, to, s, depth)),
        reported_once(scan_slots(regs, bus, 0, to, s, depth).found),
        forall|i: int|
            s.found.len() <= i < scan_slots(regs, bus, 0, to, s, depth).found.len() ==> {
                let r = #[trigger] scan_slots(regs, bus, 0, to, s, depth).found[i];
                (r.bus == bus && slot_of(r) < to) || !s.visited[r.bus as int]
            },
    decreases depth, to + 1,
{
    if to > 0 {
        let last = (to - 1) as nat;
        let before = scan_slots(regs, bus, 0, last, s, depth);
        let after = scan_slots(regs, bus, 0, to, s, depth);
        lemma_scan_tidy(regs, bus, last, s, depth);
        lemma_scan_continues(regs, bus, 0, last, s, depth);
        assert forall|i: int| 0 <= i < before.found.len() && (#[trigger] before.found[i]).bus
            == bus implies slot_of(before.found[i]) < last by {
            if i < s.found.len() {
                assert(before.found[i] == s.found[i]);
            }
        }
        lemma_visit_tidy(regs, bus, last, before, depth);
        lemma_visit_continues(regs, bus, last, before, depth);
        assert(after == visit(regs, bus, last, before, depth));
        assert forall|i: int| s.found.len() <= i < after.found.len() implies {
            let r = #[trigger] after.found[i];
            (r.bus == bus && slot_of(r) < to) || !s.visited[r.bus as int]
        } by {
            if i < before.found.len() {
                assert(after.found[i] == before.found[i]);
            }
        }
    }
}

/// A walk reports no function twice.
pub proof fn walk_reports_each_function_once(regs: Registers, start: u8)
    ensures
        reported_once(devices_behind(regs, start)),
{
    lemma_scan_tidy(regs, start, SLOTS_PER_BUS as nat, Scan::start(start), MAX_DEPTH as nat);
}

/// Taking the buses in turn reports no function twice.
proof fn lemma_buses_tidy(regs: Registers, upto: nat, s: Scan)
    requires
        upto <= BUS_COUNT,
        s.wf(),
        grounded(s),
        reported_once(s.found),
    ensures
        scan_buses(regs, upto, s).wf(),
        grounded(scan_buses(regs, upto, s)),
        reported_once(scan_buses(regs, upto, s).found),
    decreases upto,
{
    if upto > 0 {
        lemma_buses_tidy(regs, (upto - 1) as nat, s);
        let before = scan_buses(regs, (upto - 1) as nat, s);
        let bus = (upto - 1) as u8;
        if !before.visited[bus as int] {
            let entered = before.enter(bus);
            assert(grounded(entered));
            lemma_scan_tidy(regs, bus, SLOTS_PER_BUS as nat, entered, MAX_DEPTH as nat);
            lemma_scan_continues(regs, bus, 0, SLOTS_PER_BUS as nat, entered, MAX_DEPTH as nat);
        }
    }
}

/// A walk of the whole topology reports no function twice.
pub proof fn topology_reports_each_function_once(regs: Registers)
    ensures
        reported_once(all_devices(regs)),
{
    lemma_buses_tidy(regs, BUS_COUNT as nat, nowhere());
}

/// Taking the buses in turn leaves each bus below `upto` entered, and
/// every bus that was entered dealt with.
proof fn lemma_buses_cover(regs: Registers, upto: nat, s: Scan)
    requires
        upto <= BUS_COUNT,
        s.wf(),
        forall|b: u8| s.visited[b as int] ==> bus_covered(regs, s, b),
    ensures
        scan_buses(regs, upto, s).wf(),
        forall|b: u8| b < upto ==> scan_buses(regs, upto, s).visited[b as int],
        forall|b: u8|
            scan_buses(regs, upto, s).visited[b as int] ==> bus_covered(
                regs,
                scan_buses(regs, upto, s),
                b,
            ),
    decreases upto,
{
    if upto > 0 {
        lemma_buses_cover(regs, (upto - 1) as nat, s);
        let before = scan_buses(regs, (upto - 1) as nat, s);
        let after = scan_buses(regs, upto, s);
        let bus = (upto - 1) as u8;
        if !before.visited[bus as int] {
            let entered = before.enter(bus);
            lemma_enter_counts(before.visited, bus as int);
            lemma_count_bound(before.visited);
            lemma_scan_covers(regs, bus, SLOTS_PER_BUS as nat, entered, MAX_DEPTH as nat);
            lemma_scan_continues(regs, bus, 0, SLOTS_PER_BUS as nat, entered, MAX_DEPTH as nat);
            assert(before.continued_by(after)) by {
                lemma_unvisited_counts(before.visited, bus as int);
            }
            assert forall|b: u8| after.visited[b as int] implies bus_covered(regs, after, b) by {
                if b == bus {
                    assert forall|k: nat| k < SLOTS_PER_BUS implies slot_covered(
                        regs,
                        after,
                        b,
                        k,
                    ) by {}
                } else if before.visited[b as int] {
                    assert forall|k: nat| k < SLOTS_PER_BUS implies slot_covered(
                        regs,
                        after,
                        b,
                        k,
                    ) by {
                        assert(slot_covered(regs, before, b, k));
                        lemma_covered_stays(regs, before, after, b, k);
                    }
                } else {
                    assert(!entered.visited[b as int]);
                }
            }
        }
    }
}

/// A walk of the whole topology leaves nothing out: every function that a
/// walk of its bus probes is reported.
pub proof fn topology_walk_is_complete(regs: Registers, bus: u8, slot: nat)
    requires
        slot < SLOTS_PER_BUS,
        slot_probed(regs, bus, slot),
    ensures
        all_devices(regs).contains(record(regs, bus, slot_device(slot), slot_function(slot))),
{
    lemma_buses_cover(regs, BUS_COUNT as nat, nowhere());
    let end = scan_buses(regs, BUS_COUNT as nat, nowhere());
    assert(end.visited[bus as int]);
    assert(slot_covered(regs, end, bus, slot));
}

} // verus!
