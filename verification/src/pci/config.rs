//! A software image of PCI configuration space.
//!
//! Configuration registers are reached through an address word: bit 31
//! enables the access, bits 8 to 23 name the function (bus, device and
//! function number) and bits 2 to 7 name one of its 64 double words. The image
//! keeps the registers of the functions that are present; everything else
//! reads as all ones, as it does on the bus.

use vstd::prelude::*;

verus! {

/// Bit 31 of an address word: the access is a configuration cycle.
pub const CONFIG_ENABLE: u32 = 0x8000_0000;

/// What a register that nothing drives reads as.
pub const ALL_ONES: u32 = 0xFFFF_FFFF;

/// Double words in the configuration space of one function.
pub const REGISTER_COUNT: usize = 64;

/// The address word for a register of a function:
/// `0x8000_0000 | bus << 16 | slot << 11 | func << 8 | (offset & 0xFC)`.
pub open spec fn spec_config_address(bus: u8, slot: u8, func: u8, offset: u8) -> u32 {
    (bus as u32) << 16 | (slot as u32) << 11 | (func as u32) << 8 | (offset & 0xFC) as u32
        | 0x8000_0000u32
}

/// Bits 8 to 23 of an address word: the function it names.
pub open spec fn function_tag(address: u32) -> u16 {
    ((address >> 8) & 0xFFFF) as u16
}

/// Bits 2 to 7 of an address word: the double word it names.
pub open spec fn register_index(address: u32) -> int {
    ((address >> 2) & 0x3F) as int
}

/// Bit 31 of an address word is set.
pub open spec fn is_enabled(address: u32) -> bool {
    address & CONFIG_ENABLE != 0
}

/// The 16-bit lane of a double word that `offset` selects: the upper half
/// where bit 1 of the offset is set, the lower half otherwise.
pub open spec fn spec_select_word(data: u32, offset: u8) -> u16 {
    if offset & 2 == 0 {
        (data & 0xFFFF) as u16
    } else {
        ((data >> 16) & 0xFFFF) as u16
    }
}

/// `data` with the lane that `offset` selects replaced by `value`.
pub open spec fn spec_merge_word(data: u32, offset: u8, value: u16) -> u32 {
    if offset & 2 == 0 {
        (data & 0xFFFF_0000) | value as u32
    } else {
        (data & 0x0000_FFFF) | (value as u32) << 16
    }
}

/// The registers of the present functions, by function tag.
pub type Registers = Map<u16, Seq<u32>>;

/// Every present function has its 64 registers.
pub open spec fn well_formed(regs: Registers) -> bool {
    forall|t: u16| #[trigger] regs.dom().contains(t) ==> regs[t].len() == REGISTER_COUNT
}

/// What a read through `address` returns.
pub open spec fn read_dword(regs: Registers, address: u32) -> u32 {
    if is_enabled(address) && regs.dom().contains(function_tag(address)) {
        regs[function_tag(address)][register_index(address)]
    } else {
        ALL_ONES
    }
}

/// The registers after `value` was written through `address`. A write to a
/// function that is not there, or without the enable bit, changes nothing.
pub open spec fn write_dword(regs: Registers, address: u32, value: u32) -> Registers {
    if is_enabled(address) && regs.dom().contains(function_tag(address)) {
        regs.insert(
            function_tag(address),
            regs[function_tag(address)].update(register_index(address), value),
        )
    } else {
        regs
    }
}

/// Computes the address word for a register of a function.
pub fn config_address(bus: u8, slot: u8, func: u8, offset: u8) -> (address: u32)
    ensures
        address == spec_config_address(bus, slot, func, offset),
{
    (bus as u32) << 16 | (slot as u32) << 11 | (func as u32) << 8 | (offset & 0xFC) as u32
        | 0x8000_0000u32
}

/// Picks the 16-bit lane that `offset` selects out of a double word.
pub fn select_word(data: u32, offset: u8) -> (word: u16)
    ensures
        word == spec_select_word(data, offset),
{
    if offset & 2 == 0 {
        (data & 0xFFFF) as u16
    } else {
        ((data >> 16) & 0xFFFF) as u16
    }
}

/// Replaces the 16-bit lane that `offset` selects, leaving the other one as
/// it was.
pub fn merge_word(data: u32, offset: u8, value: u16) -> (merged: u32)
    ensures
        merged == spec_merge_word(data, offset, value),
{
    if offset & 2 == 0 {
        (data & 0xFFFF_0000) | value as u32
    } else {
        (data & 0x0000_FFFF) | (value as u32) << 16
    }
}

/// The lane is the double word shifted right by `(offset & 2) * 8` bits, and
/// merging clears sixteen bits at that shift and puts the word there.
pub proof fn lane_is_a_shift(data: u32, offset: u8, value: u16)
    ensures
        spec_select_word(data, offset) == ((data >> (((offset & 2) * 8) as u32)) & 0xFFFF) as u16,
        spec_merge_word(data, offset, value) == (data & !(0xFFFFu32 << (((offset & 2) * 8) as u32)))
            | (value as u32) << (((offset & 2) * 8) as u32),
{
    let shift = ((offset & 2) * 8) as u32;
    assert(offset & 2 == 0 || offset & 2 == 2) by (bit_vector);
    if offset & 2 == 0 {
        assert(shift == 0);
        assert(data >> 0u32 == data) by (bit_vector);
        assert(data & !(0xFFFFu32 << 0u32) == data & 0xFFFF_0000) by (bit_vector);
        assert((value as u32) << 0u32 == value as u32) by (bit_vector);
    } else {
        assert(shift == 16);
        assert(data & !(0xFFFFu32 << 16u32) == data & 0x0000_FFFF) by (bit_vector);
    }
}

/// After a word was merged in, its lane reads back as that word.
pub proof fn merged_lane_reads_back(data: u32, offset: u8, value: u16)
    ensures
        spec_select_word(spec_merge_word(data, offset, value), offset) == value,
{
    assert((((data & 0xFFFF_0000) | value as u32) & 0xFFFF) as u16 == value) by (bit_vector);
    assert(((((data & 0x0000_FFFF) | (value as u32) << 16) >> 16) & 0xFFFF) as u16 == value)
        by (bit_vector);
}

/// Merging a word into one lane leaves the other lane as it was.
pub proof fn merge_keeps_other_lane(data: u32, offset: u8, other: u8, value: u16)
    requires
        (offset & 2 == 0) != (other & 2 == 0),
    ensures
        spec_select_word(spec_merge_word(data, offset, value), other) == spec_select_word(
            data,
            other,
        ),
{
    assert(((((data & 0xFFFF_0000) | value as u32) >> 16) & 0xFFFF) as u16 == ((data >> 16)
        & 0xFFFF) as u16) by (bit_vector);
    assert((((data & 0x0000_FFFF) | (value as u32) << 16) & 0xFFFF) as u16 == (data
        & 0xFFFF) as u16) by (bit_vector);
}

/// The registers of one present function.
#[derive(Clone, Copy)]
struct FunctionRegisters {
    tag: u16,
    regs: [u32; 64],
}

/// The configuration registers of every function that is present.
pub struct ConfigSpace {
    functions: Vec<FunctionRegisters>,
}

/// Entry `i` is the first one that carries `tag`.
spec fn is_first(entries: Seq<FunctionRegisters>, tag: u16, i: int) -> bool {
    &&& 0 <= i < entries.len()
    &&& entries[i].tag == tag
    &&& forall|j: int| 0 <= j < i ==> entries[j].tag != tag
}

/// Some entry carries `tag`.
spec fn has_tag(entries: Seq<FunctionRegisters>, tag: u16) -> bool {
    exists|i: int| is_first(entries, tag, i)
}

/// The first entry that carries `tag`, where there is one.
spec fn first_index(entries: Seq<FunctionRegisters>, tag: u16) -> int {
    choose|i: int| is_first(entries, tag, i)
}

/// The registers that a list of entries stands for: each tag maps to the
/// registers of the first entry that carries it.
spec fn registers_of(entries: Seq<FunctionRegisters>) -> Registers {
    Map::new(|t: u16| has_tag(entries, t), |t: u16| entries[first_index(entries, t)].regs@)
}

/// Where entry `i` is the first with `tag`, the registers under `tag` are its.
proof fn lemma_first_is_chosen(entries: Seq<FunctionRegisters>, tag: u16, i: int)
    requires
        is_first(entries, tag, i),
    ensures
        has_tag(entries, tag),
        first_index(entries, tag) == i,
        registers_of(entries).dom().contains(tag),
        registers_of(entries)[tag] == entries[i].regs@,
{
    let k = first_index(entries, tag);
    assert(is_first(entries, tag, k));
    if k < i {
        assert(entries[k].tag != tag);
    }
    if i < k {
        assert(entries[i].tag != tag);
    }
}

impl View for ConfigSpace {
    type V = Registers;

    closed spec fn view(&self) -> Registers {
        registers_of(self.functions@)
    }
}

impl ConfigSpace {
    /// A configuration space with no function present.
    pub fn new() -> (space: ConfigSpace)
        ensures
            space@ == Map::<u16, Seq<u32>>::empty(),
    {
        let space = ConfigSpace { functions: Vec::new() };
        assert(space@ =~= Map::<u16, Seq<u32>>::empty());
        space
    }

    /// The registers that a configuration space holds are well formed.
    pub proof fn registers_are_well_formed(&self)
        ensures
            well_formed(self@),
    {
    }

    /// Index of the first entry that carries `tag`.
    fn find(&self, tag: u16) -> (found: Option<usize>)
        ensures
            match found {
                Some(i) => is_first(self.functions@, tag, i as int),
                None => !has_tag(self.functions@, tag),
            },
    {
        let mut i: usize = 0;
        while i < self.functions.len()
            invariant
                i <= self.functions@.len(),
                forall|j: int| 0 <= j < i ==> self.functions@[j].tag != tag,
            decreases self.functions@.len() - i,
        {
            if self.functions[i].tag == tag {
                return Some(i);
            }
            i += 1;
        }
        None
    }

    /// Reads the double word that `address` names. A function that is not
    /// present, or an address without the enable bit, reads as all ones.
    pub fn read(&self, address: u32) -> (data: u32)
        ensures
            data == read_dword(self@, address),
    {
        if address & CONFIG_ENABLE == 0 {
            return ALL_ONES;
        }
        let tag = ((address >> 8) & 0xFFFF) as u16;
        let index = ((address >> 2) & 0x3F) as usize;
        assert(((address >> 2) & 0x3F) < 64) by (bit_vector);
        match self.find(tag) {
            Some(i) => {
                proof {
                    lemma_first_is_chosen(self.functions@, tag, i as int);
                }
                self.functions[i].regs[index]
            },
            None => ALL_ONES,
        }
    }

    /// Writes the double word that `address` names. A write to a function
    /// that is not present, or without the enable bit, is dropped.
    pub fn write(&mut self, address: u32, value: u32)
        ensures
            final(self)@ == write_dword(old(self)@, address, value),
    {
        if address & CONFIG_ENABLE == 0 {
            return ;
        }
        let tag = ((address >> 8) & 0xFFFF) as u16;
        let index = ((address >> 2) & 0x3F) as usize;
        assert(((address >> 2) & 0x3F) < 64) by (bit_vector);
        match self.find(tag) {
            Some(i) => {
                let mut entry = self.functions[i];
                entry.regs[index] = value;
                proof {
                    lemma_first_is_chosen(self.functions@, tag, i as int);
                    lemma_replace(self.functions@, i as int, entry);
                }
                self.functions.set(i, entry);
            },
            None => {},
        }
    }

    /// Makes the function at `bus`, `device`, `function` present with the
    /// given registers, in place of what was there.
    pub fn insert(&mut self, bus: u8, device: u8, function: u8, registers: [u32; 64])
        ensures
            final(self)@ == old(self)@.insert(
                function_tag(spec_config_address(bus, device, function, 0)),
                registers@,
            ),
    {
        let address = config_address(bus, device, function, 0);
        let tag = ((address >> 8) & 0xFFFF) as u16;
        let entry = FunctionRegisters { tag, regs: registers };
        match self.find(tag) {
            Some(i) => {
                proof {
                    lemma_replace(self.functions@, i as int, entry);
                }
                self.functions.set(i, entry);
            },
            None => {
                proof {
                    lemma_append(self.functions@, entry);
                }
                self.functions.push(entry);
            },
        }
    }
}

/// Replacing the registers of an entry, its tag kept, replaces the registers
/// under that tag where the entry is the first to carry it.
proof fn lemma_replace(entries: Seq<FunctionRegisters>, i: int, entry: FunctionRegisters)
    requires
        is_first(entries, entry.tag, i),
    ensures
        registers_of(entries.update(i, entry)) == registers_of(entries).insert(
            entry.tag,
            entry.regs@,
        ),
{
    let after = entries.update(i, entry);
    assert forall|t: u16, k: int| is_first(after, t, k) == is_first(entries, t, k) by {
        if is_first(after, t, k) {
            assert(forall|j: int| 0 <= j < k ==> after[j].tag == entries[j].tag);
        }
        if is_first(entries, t, k) {
            assert(forall|j: int| 0 <= j < k ==> after[j].tag == entries[j].tag);
        }
    }
    lemma_first_is_chosen(after, entry.tag, i);
    assert forall|t: u16| has_tag(after, t) == has_tag(entries, t) by {
        if has_tag(after, t) {
            let k = choose|k: int| is_first(after, t, k);
            assert(is_first(entries, t, k));
        }
        if has_tag(entries, t) {
            let k = choose|k: int| is_first(entries, t, k);
            assert(is_first(after, t, k));
        }
    }
    assert forall|t: u16| has_tag(entries, t) && t != entry.tag implies registers_of(after)[t]
        == registers_of(entries)[t] by {
        let k = first_index(entries, t);
        assert(is_first(entries, t, k));
        assert(is_first(after, t, k));
        lemma_first_is_chosen(after, t, k);
    }
    assert(registers_of(after) =~= registers_of(entries).insert(entry.tag, entry.regs@));
}

/// Appending an entry whose tag is new adds its registers under that tag.
proof fn lemma_append(entries: Seq<FunctionRegisters>, entry: FunctionRegisters)
    requires
        !has_tag(entries, entry.tag),
    ensures
        registers_of(entries.push(entry)) == registers_of(entries).insert(
            entry.tag,
            entry.regs@,
        ),
{
    let after = entries.push(entry);
    assert forall|j: int| 0 <= j < entries.len() implies entries[j].tag != entry.tag by {
        if entries[j].tag == entry.tag {
            lemma_some_is_first(entries, entry.tag, j);
        }
    }
    assert(is_first(after, entry.tag, entries.len() as int));
    lemma_first_is_chosen(after, entry.tag, entries.len() as int);
    assert forall|t: u16| t != entry.tag implies has_tag(after, t) == has_tag(entries, t) by {
        if has_tag(after, t) {
            let k = choose|k: int| is_first(after, t, k);
            assert(after[k].tag == t);
            assert(k < entries.len());
            assert(forall|j: int| 0 <= j <= k ==> after[j] == entries[j]);
            assert(is_first(entries, t, k));
        }
        if has_tag(entries, t) {
            let k = choose|k: int| is_first(entries, t, k);
            assert(is_first(after, t, k));
        }
    }
    assert forall|t: u16| has_tag(entries, t) && t != entry.tag implies registers_of(after)[t]
        == registers_of(entries)[t] by {
        let k = first_index(entries, t);
        assert(is_first(entries, t, k));
        assert(is_first(after, t, k));
        lemma_first_is_chosen(after, t, k);
    }
    assert(registers_of(after) =~= registers_of(entries).insert(entry.tag, entry.regs@));
}

/// Where some entry carries `tag`, one of them is the first.
proof fn lemma_some_is_first(entries: Seq<FunctionRegisters>, tag: u16, i: int)
    requires
        0 <= i < entries.len(),
        entries[i].tag == tag,
    ensures
        has_tag(entries, tag),
    decreases i,
{
    if forall|j: int| 0 <= j < i ==> entries[j].tag != tag {
        assert(is_first(entries, tag, i));
    } else {
        let j = choose|j: int| 0 <= j < i && entries[j].tag == tag;
        lemma_some_is_first(entries, tag, j);
    }
}

} // verus!
