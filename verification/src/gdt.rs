//! The global descriptor table and task state segment of the boot CPU.

use vstd::prelude::*;
use x86_64::structures::gdt::{Descriptor, GlobalDescriptorTable, SegmentSelector};
use x86_64::structures::tss::TaskStateSegment;
use x86_64::{PrivilegeLevel, VirtAddr};

verus! {

#[verifier::external_type_specification]
#[verifier::external_body]
pub struct ExGlobalDescriptorTable(GlobalDescriptorTable);

#[verifier::external_type_specification]
#[verifier::external_body]
pub struct ExTaskStateSegment(TaskStateSegment);

/// The entries of a descriptor table, the null entry at index 0 included.
pub uninterp spec fn gdt_entries(gdt: GlobalDescriptorTable) -> Seq<u64>;

/// The privilege stack table of a task state segment, as 64-bit addresses.
pub uninterp spec fn tss_privilege_stacks(tss: TaskStateSegment) -> Seq<u64>;

/// The interrupt stack table of a task state segment, as 64-bit addresses.
pub uninterp spec fn tss_interrupt_stacks(tss: TaskStateSegment) -> Seq<u64>;

/// The canonical form of a virtual address: bits 48..64 must copy bit 47
/// (the address is below 2^47 or at least 2^64 - 2^47), or be all zero, in
/// which case bit 47 is copied into them; else the address is refused.
pub open spec fn canonical_virt_addr(addr: u64) -> Option<u64> {
    if addr < 0x0000_8000_0000_0000u64 || addr >= 0xffff_8000_0000_0000u64 {
        Some(addr)
    } else if addr < 0x0001_0000_0000_0000u64 {
        Some((addr + 0xffff_0000_0000_0000u64) as u64)
    } else {
        None
    }
}

/// `VirtAddr::try_new` of the x86_64 crate, read back with `as_u64`: the
/// canonical form of the address, or `None` where bits 48..64 hold data.
#[verifier::external_body]
fn virt_addr_try_new(addr: u64) -> (r: Option<u64>)
    ensures
        r == canonical_virt_addr(addr),
{
    match VirtAddr::try_new(addr) {
        Ok(v) => Some(v.as_u64()),
        Err(_) => None,
    }
}

/// The canonical form of a virtual address, or `None` where it has none.
pub fn canonical_address(addr: u64) -> (r: Option<u64>)
    ensures
        r == canonical_virt_addr(addr),
{
    virt_addr_try_new(addr)
}

/// A segment descriptor as it is stored in the table: one 64-bit word for a
/// code or data segment, two for a system segment such as a TSS.
#[derive(Clone, Copy, Debug, PartialEq, Eq, Structural)]
pub enum SegmentDescriptor {
    User(u64),
    System(u64, u64),
}

impl SegmentDescriptor {
    /// The table words the descriptor occupies.
    pub open spec fn words(self) -> Seq<u64> {
        match self {
            SegmentDescriptor::User(v) => seq![v],
            SegmentDescriptor::System(low, high) => seq![low, high],
        }
    }

    /// The descriptor privilege level: bits 45 and 46 of the low word.
    pub open spec fn dpl(self) -> u16 {
        let low = match self {
            SegmentDescriptor::User(v) => v,
            SegmentDescriptor::System(low, _) => low,
        };
        ((low >> 45u64) & 3u64) as u16
    }
}

/// The bits of a segment selector: the table index above a 2-bit requested
/// privilege level (the index is shifted within 16 bits).
pub open spec fn selector_bits(index: u16, rpl: u16) -> u16 {
    (index << 3u16) | rpl
}

/// `SegmentSelector::new` of the x86_64 crate, read back through its field:
/// `index << 3 | rpl`. `PrivilegeLevel::from_u16` panics above 3.
#[verifier::external_body]
fn segment_selector_new(index: u16, rpl: u16) -> (s: u16)
    requires
        rpl <= 3,
    ensures
        s == selector_bits(index, rpl),
{
    SegmentSelector::new(index, PrivilegeLevel::from_u16(rpl)).0
}

/// `GlobalDescriptorTable::new` of the x86_64 crate: a table holding only the
/// null entry.
#[verifier::external_body]
fn gdt_new() -> (g: GlobalDescriptorTable)
    ensures
        gdt_entries(g) == seq![0u64],
{
    GlobalDescriptorTable::new()
}

/// `GlobalDescriptorTable::add_entry` of the x86_64 crate: appends the
/// descriptor's words and returns the selector of its first word, with the
/// descriptor's privilege level as the requested one. The table holds 8
/// words; a descriptor that does not fit makes it panic, which the
/// precondition rules out, so the call does not unwind.
#[verifier::external_body]
fn gdt_add_entry(gdt: &mut GlobalDescriptorTable, entry: SegmentDescriptor) -> (s: u16)
    requires
        gdt_entries(*old(gdt)).len() + entry.words().len() <= 8,
    ensures
        gdt_entries(*final(gdt)) == gdt_entries(*old(gdt)) + entry.words(),
        s == selector_bits(gdt_entries(*old(gdt)).len() as u16, entry.dpl()),
    no_unwind
{
    let descriptor = match entry {
        SegmentDescriptor::User(v) => Descriptor::UserSegment(v),
        SegmentDescriptor::System(low, high) => Descriptor::SystemSegment(low, high),
    };
    gdt.add_entry(descriptor).0
}

/// `GlobalDescriptorTable::as_raw_slice` of the x86_64 crate: the entries in
/// use, the null entry included.
#[verifier::external_body]
fn gdt_as_raw_slice(gdt: &GlobalDescriptorTable) -> (v: Vec<u64>)
    ensures
        v@ == gdt_entries(*gdt),
{
    gdt.as_raw_slice().to_vec()
}

/// `TaskStateSegment::new` of the x86_64 crate: all stack pointers zero.
#[verifier::external_body]
fn tss_new() -> (t: TaskStateSegment)
    ensures
        tss_privilege_stacks(t) == seq![0u64; 3],
        tss_interrupt_stacks(t) == seq![0u64; 7],
{
    TaskStateSegment::new()
}

/// Stores `VirtAddr::new(addr)` of the x86_64 crate in an entry of the
/// interrupt stack table; `VirtAddr::new` panics where the address has no
/// canonical form, which the precondition rules out, so the call does not
/// unwind.
#[verifier::external_body]
fn tss_set_interrupt_stack(tss: &mut TaskStateSegment, index: usize, addr: u64)
    requires
        index < 7,
        canonical_virt_addr(addr) is Some,
    ensures
        tss_interrupt_stacks(*final(tss)) == tss_interrupt_stacks(*old(tss)).update(
            index as int,
            canonical_virt_addr(addr)->0,
        ),
        tss_privilege_stacks(*final(tss)) == tss_privilege_stacks(*old(tss)),
    no_unwind
{
    tss.interrupt_stack_table[index] = VirtAddr::new(addr);
}

/// Stores `VirtAddr::new(addr)` of the x86_64 crate in an entry of the
/// privilege stack table; `VirtAddr::new` panics where the address has no
/// canonical form, which the precondition rules out, so the call does not
/// unwind.
#[verifier::external_body]
fn tss_set_privilege_stack(tss: &mut TaskStateSegment, index: usize, addr: u64)
    requires
        index < 3,
        canonical_virt_addr(addr) is Some,
    ensures
        tss_privilege_stacks(*final(tss)) == tss_privilege_stacks(*old(tss)).update(
            index as int,
            canonical_virt_addr(addr)->0,
        ),
        tss_interrupt_stacks(*final(tss)) == tss_interrupt_stacks(*old(tss)),
    no_unwind
{
    tss.privilege_stack_table[index] = VirtAddr::new(addr);
}

/// Reads entry `index` of the privilege stack table through `VirtAddr::as_u64`.
#[verifier::external_body]
fn tss_privilege_stack_at(tss: &TaskStateSegment, index: usize) -> (a: u64)
    requires
        index < 3,
    ensures
        a == tss_privilege_stacks(*tss)[index as int],
{
    let table = tss.privilege_stack_table;
    table[index].as_u64()
}

/// Reads entry `index` of the interrupt stack table through `VirtAddr::as_u64`.
#[verifier::external_body]
fn tss_interrupt_stack_at(tss: &TaskStateSegment, index: usize) -> (a: u64)
    requires
        index < 7,
    ensures
        a == tss_interrupt_stacks(*tss)[index as int],
{
    let table = tss.interrupt_stack_table;
    table[index].as_u64()
}

/// `Descriptor::tss_segment` of the x86_64 crate, with the address of `tss`
/// it encodes (read through `VirtAddr::from_ptr`, as `tss_segment` reads it
/// through a pointer cast): a system descriptor for an available 64-bit TSS,
/// present, of privilege level 0, whose limit is the TSS size less one (103),
/// whose first word holds bits 0..24 of the address in bits 16..40 and bits
/// 24..32 in bits 56..64, and whose second word holds bits 32..64. The
/// address of a live reference is canonical, so `from_ptr` does not panic.
#[verifier::external_body]
fn tss_descriptor(tss: &'static TaskStateSegment) -> (r: (SegmentDescriptor, u64))
    ensures
        r.0 is System,
        r.0.dpl() == 0,
        r.0->System_0 & 0xffffu64 == 103,
        (r.0->System_0 >> 40u64) & 0xfu64 == 9,
        (r.0->System_0 >> 47u64) & 1u64 == 1,
        (r.0->System_0 >> 16u64) & 0xff_ffffu64 == r.1 & 0xff_ffffu64,
        r.0->System_0 >> 56u64 == (r.1 >> 24u64) & 0xffu64,
        r.0->System_1 == r.1 >> 32u64,
{
    let address = VirtAddr::from_ptr::<TaskStateSegment>(tss).as_u64();
    match Descriptor::tss_segment(tss) {
        Descriptor::SystemSegment(low, high) => (SegmentDescriptor::System(low, high), address),
        Descriptor::UserSegment(v) => (SegmentDescriptor::User(v), address),
    }
}

/// The base address that a TSS descriptor's two words encode: bits 16..40
/// and 56..64 of the first word, then the second word's low 32 bits.
pub open spec fn descriptor_base(low: u64, high: u64) -> u64 {
    ((low >> 16u64) & 0xff_ffffu64) | (((low >> 56u64) & 0xffu64) << 24u64) | (high << 32u64)
}

/// A TSS descriptor whose base fields hold the pieces of an address points
/// at exactly that address: decoding its two words gives the address back.
pub proof fn lemma_descriptor_base_decodes(low: u64, high: u64, addr: u64)
    requires
        (low >> 16u64) & 0xff_ffffu64 == addr & 0xff_ffffu64,
        low >> 56u64 == (addr >> 24u64) & 0xffu64,
        high == addr >> 32u64,
    ensures
        descriptor_base(low, high) == addr,
{
    assert(((low >> 16u64) & 0xff_ffffu64) | (((low >> 56u64) & 0xffu64) << 24u64) | (high
        << 32u64) == addr) by (bit_vector)
        requires
            (low >> 16u64) & 0xff_ffffu64 == addr & 0xff_ffffu64,
            low >> 56u64 == (addr >> 24u64) & 0xffu64,
            high == addr >> 32u64,
    ;
}

/// Size of the double fault stack.
pub const STACK_SIZE: usize = 0x1000;

/// Kernel code segment: executable, user segment, present, long mode.
pub const KCODE: u64 = 0x0020980000000000;

/// User code segment: executable, user segment, ring 3, present, long mode.
pub const UCODE: u64 = 0x0020F80000000000;

/// Kernel data segment: writable, user segment, present.
pub const KDATA: u64 = 0x0000920000000000;

/// User data segment: writable, user segment, ring 3, present.
pub const UDATA: u64 = 0x0000F20000000000;

/// The kernel code selector: entry 1, ring 0.
pub fn kcode_selector() -> (s: u16)
    ensures
        s == selector_bits(1, 0),
        s == 8,
{
    assert(selector_bits(1, 0) == 8) by (bit_vector);
    segment_selector_new(1, 0)
}

/// The TSS selector: entry 5, ring 0.
pub fn tss_selector() -> (s: u16)
    ensures
        s == selector_bits(5, 0),
        s == 40,
{
    assert(selector_bits(5, 0) == 40) by (bit_vector);
    segment_selector_new(5, 0)
}

/// The selectors that the table hands out for the segments of the CPU.
#[derive(Clone, Copy, Debug, PartialEq, Eq, Structural)]
pub struct GdtSelectors {
    pub kernel_code: u16,
    pub kernel_data: u16,
    pub user_code: u16,
    pub user_data: u16,
    pub tss: u16,
}

/// What `Cpu::init` hands back: the selectors and the tables, which stay in
/// place for the rest of the kernel's life.
pub struct CpuTables {
    pub selectors: GdtSelectors,
    pub gdt: &'static GlobalDescriptorTable,
    pub tss: &'static TaskStateSegment,
    /// The address of `tss`, which the TSS descriptor points at.
    pub tss_address: u64,
}

/// The per-CPU descriptor tables and the double fault stack.
pub struct Cpu {
    gdt: GlobalDescriptorTable,
    tss: TaskStateSegment,
    double_fault_stack: [u8; STACK_SIZE],
}

impl Cpu {
    #[verifier::type_invariant]
    spec fn inv(self) -> bool {
        &&& 1 <= gdt_entries(self.gdt).len() <= 8
        &&& tss_privilege_stacks(self.tss).len() == 3
        &&& tss_interrupt_stacks(self.tss).len() == 7
    }

    /// The sizes every `Cpu` keeps: the table holds the null entry and at
    /// most 8 entries, the TSS 3 privilege stacks and 7 interrupt stacks.
    pub open spec fn tables_well_sized(&self) -> bool {
        &&& 1 <= self.gdt_view().len() <= 8
        &&& self.privilege_stacks().len() == 3
        &&& self.interrupt_stacks().len() == 7
    }

    /// The descriptor table's entries.
    pub closed spec fn gdt_view(&self) -> Seq<u64> {
        gdt_entries(self.gdt)
    }

    /// The privilege stack table of the TSS.
    pub closed spec fn privilege_stacks(&self) -> Seq<u64> {
        tss_privilege_stacks(self.tss)
    }

    /// The interrupt stack table of the TSS.
    pub closed spec fn interrupt_stacks(&self) -> Seq<u64> {
        tss_interrupt_stacks(self.tss)
    }

    /// An empty table, a zeroed TSS and a zeroed double fault stack.
    pub fn new() -> (c: Cpu)
        ensures
            c.gdt_view() == seq![0u64],
            c.privilege_stacks() == seq![0u64; 3],
            c.interrupt_stacks() == seq![0u64; 7],
            c.stack_view() == Seq::new(STACK_SIZE as nat, |i: int| 0u8),
            c.tables_well_sized(),
    {
        let c = Cpu { gdt: gdt_new(), tss: tss_new(), double_fault_stack: [0u8; STACK_SIZE] };
        assert(c.double_fault_stack@ =~= Seq::new(STACK_SIZE as nat, |i: int| 0u8));
        c
    }
}

/// What the low word of a TSS descriptor is known to hold: a limit of 103
/// (the TSS size less one), the type "available 64-bit TSS", privilege level
/// 0 and the present bit.
pub open spec fn tss_descriptor_low(low: u64) -> bool {
    &&& low & 0xffffu64 == 103
    &&& (low >> 40u64) & 0xfu64 == 9
    &&& (low >> 45u64) & 3u64 == 0
    &&& (low >> 47u64) & 1u64 == 1
}

impl Cpu {
    /// Points the first interrupt stack of the TSS at the top of the double
    /// fault stack, which starts at `stack_base`, and appends to the table the
    /// kernel code, kernel data, user code and user data segments and the TSS
    /// descriptor. Returns the selectors handed out, the table, which the
    /// caller loads, and the TSS, which stays where the descriptor points.
    pub fn init(&'static mut self, stack_base: u64) -> (r: CpuTables)
        requires
            stack_base + STACK_SIZE <= u64::MAX,
            canonical_virt_addr((stack_base + STACK_SIZE) as u64) is Some,
            old(self).gdt_view().len() + 6 <= 8,
        ensures
            ({
                let n = old(self).gdt_view().len() as int;
                let e = gdt_entries(*r.gdt);
                &&& e.len() == n + 6
                &&& e.subrange(0, n + 4) == old(self).gdt_view() + seq![KCODE, KDATA, UCODE, UDATA]
                &&& tss_descriptor_low(e[n + 4])
                &&& (e[n + 4] >> 16u64) & 0xff_ffffu64 == r.tss_address & 0xff_ffffu64
                &&& e[n + 4] >> 56u64 == (r.tss_address >> 24u64) & 0xffu64
                &&& e[n + 5] == r.tss_address >> 32u64
                &&& descriptor_base(e[n + 4], e[n + 5]) == r.tss_address
                &&& r.selectors.kernel_code == selector_bits(n as u16, 0)
                &&& r.selectors.kernel_data == selector_bits((n + 1) as u16, 0)
                &&& r.selectors.user_code == selector_bits((n + 2) as u16, 3)
                &&& r.selectors.user_data == selector_bits((n + 3) as u16, 3)
                &&& r.selectors.tss == selector_bits((n + 4) as u16, 0)
            }),
            old(self).gdt_view().len() == 1 ==> r.selectors == (GdtSelectors {
                kernel_code: 8,
                kernel_data: 16,
                user_code: 27,
                user_data: 35,
                tss: 40,
            }),
            final(self).gdt_view() == gdt_entries(*r.gdt),
            tss_interrupt_stacks(*r.tss) == final(self).interrupt_stacks(),
            tss_privilege_stacks(*r.tss) == final(self).privilege_stacks(),
            final(self).interrupt_stacks() == old(self).interrupt_stacks().update(
                0,
                canonical_virt_addr((stack_base + STACK_SIZE) as u64)->0,
            ),
            final(self).privilege_stacks() == old(self).privilege_stacks(),
            old(self).tables_well_sized(),
            final(self).tables_well_sized(),
    {
        proof {
            use_type_invariant(&*self);
        }
        tss_set_interrupt_stack(&mut self.tss, 0, stack_base + STACK_SIZE as u64);
        let tss: &'static TaskStateSegment = &self.tss;
        let (d, tss_address) = tss_descriptor(tss);
        let kernel_code = gdt_add_entry(&mut self.gdt, SegmentDescriptor::User(KCODE));
        let kernel_data = gdt_add_entry(&mut self.gdt, SegmentDescriptor::User(KDATA));
        let user_code = gdt_add_entry(&mut self.gdt, SegmentDescriptor::User(UCODE));
        let user_data = gdt_add_entry(&mut self.gdt, SegmentDescriptor::User(UDATA));
        let t = gdt_add_entry(&mut self.gdt, d);
        proof {
            assert((0x0020980000000000u64 >> 45u64) & 3u64 == 0) by (bit_vector);
            assert((0x0000920000000000u64 >> 45u64) & 3u64 == 0) by (bit_vector);
            assert((0x0020F80000000000u64 >> 45u64) & 3u64 == 3) by (bit_vector);
            assert((0x0000F20000000000u64 >> 45u64) & 3u64 == 3) by (bit_vector);
            let n = old(self).gdt_view().len() as int;
            let e = gdt_entries(self.gdt);
            assert(e.subrange(0, n + 4) =~= old(self).gdt_view() + seq![KCODE, KDATA, UCODE, UDATA]);
            assert(e[n + 4] == d->System_0);
            assert(e[n + 5] == d->System_1);
            lemma_descriptor_base_decodes(e[n + 4], e[n + 5], tss_address);
            let low = d->System_0;
            assert((low >> 45u64) & 3u64 < 4) by (bit_vector);
            if n == 1 {
                assert(selector_bits(1, 0) == 8) by (bit_vector);
                assert(selector_bits(2, 0) == 16) by (bit_vector);
                assert(selector_bits(3, 3) == 27) by (bit_vector);
                assert(selector_bits(4, 3) == 35) by (bit_vector);
                assert(selector_bits(5, 0) == 40) by (bit_vector);
            }
        }
        let selectors = GdtSelectors { kernel_code, kernel_data, user_code, user_data, tss: t };
        CpuTables { selectors, gdt: &self.gdt, tss, tss_address }
    }
}

impl Cpu {
    /// The double fault stack.
    pub closed spec fn stack_view(&self) -> Seq<u8> {
        self.double_fault_stack@
    }

    /// Sets the stack that the CPU switches to when it enters ring 0 from a
    /// lower privilege level: entry 0 of the privilege stack table.
    pub fn set_return_rsp(&mut self, rsp: usize)
        requires
            canonical_virt_addr(rsp as u64) is Some,
        ensures
            final(self).privilege_stacks() == old(self).privilege_stacks().update(
                0,
                canonical_virt_addr(rsp as u64)->0,
            ),
            final(self).interrupt_stacks() == old(self).interrupt_stacks(),
            final(self).gdt_view() == old(self).gdt_view(),
            final(self).stack_view() == old(self).stack_view(),
            old(self).tables_well_sized(),
            final(self).tables_well_sized(),
    {
        proof {
            use_type_invariant(&*self);
        }
        tss_set_privilege_stack(&mut self.tss, 0, rsp as u64);
        proof {
            use_type_invariant(&*self);
        }
    }

    /// The double fault stack, whose address the caller hands to `init`.
    pub fn double_fault_stack(&self) -> (s: &[u8; STACK_SIZE])
        ensures
            s@ == self.stack_view(),
            self.tables_well_sized(),
    {
        proof {
            use_type_invariant(self);
        }
        &self.double_fault_stack
    }

    /// The entries of the descriptor table.
    pub fn table_entries(&self) -> (v: Vec<u64>)
        ensures
            v@ == self.gdt_view(),
            self.tables_well_sized(),
    {
        proof {
            use_type_invariant(self);
        }
        gdt_as_raw_slice(&self.gdt)
    }

    /// Entry `index` of the privilege stack table.
    pub fn privilege_stack(&self, index: usize) -> (a: u64)
        requires
            index < 3,
        ensures
            a == self.privilege_stacks()[index as int],
            self.tables_well_sized(),
    {
        proof {
            use_type_invariant(self);
        }
        tss_privilege_stack_at(&self.tss, index)
    }

    /// Entry `index` of the interrupt stack table.
    pub fn interrupt_stack(&self, index: usize) -> (a: u64)
        requires
            index < 7,
        ensures
            a == self.interrupt_stacks()[index as int],
            self.tables_well_sized(),
    {
        proof {
            use_type_invariant(self);
        }
        tss_interrupt_stack_at(&self.tss, index)
    }
}

/// The entries of a descriptor table, the null entry included.
pub fn table_entries_of(gdt: &GlobalDescriptorTable) -> (v: Vec<u64>)
    ensures
        v@ == gdt_entries(*gdt),
{
    gdt_as_raw_slice(gdt)
}

/// Entry `index` of the interrupt stack table of a task state segment.
pub fn interrupt_stack_of(tss: &TaskStateSegment, index: usize) -> (a: u64)
    requires
        index < 7,
    ensures
        a == tss_interrupt_stacks(*tss)[index as int],
{
    tss_interrupt_stack_at(tss, index)
}

/// A selector keeps its table index and requested privilege level apart: for
/// an index that fits in 13 bits, shifting right by 3 gives the index back
/// and the low 2 bits give the privilege level back.
pub proof fn lemma_selector_fields(index: u16, rpl: u16)
    requires
        index < 0x2000,
        rpl <= 3,
    ensures
        selector_bits(index, rpl) >> 3u16 == index,
        selector_bits(index, rpl) & 3u16 == rpl,
{
    assert(((index << 3u16) | rpl) >> 3u16 == index) by (bit_vector)
        requires
            index < 0x2000,
            rpl <= 3,
    ;
    assert(((index << 3u16) | rpl) & 3u16 == rpl) by (bit_vector)
        requires
            rpl <= 3,
    ;
}

} // verus!
