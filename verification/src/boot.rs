//! Boot loader computations: its settings, the choice of graphics mode, the
//! ACPI table lookup, the kernel file buffer, the physical memory map and the
//! frames handed to the page table code.

use uefi::mem::memory_map::MemoryType;
use uefi::table::cfg::ConfigTableEntry;
use vstd::prelude::*;
use x86_64::structures::paging::{PhysFrame, Size4KiB};
use x86_64::PhysAddr;

verus! {

/// Boot loader settings.
pub struct Config<'a> {
    /// Where all physical memory is mapped in the kernel's address space.
    pub physical_memory_address: u64,
    /// The path of the kernel image on the boot volume.
    pub efi_path: &'a str,
    /// The screen resolution to switch to, as (width, height).
    pub resolution: (usize, usize),
}

/// The settings the boot loader runs with.
pub fn default_config() -> (c: Config<'static>)
    ensures
        c.physical_memory_address == 0xFFFF800000000000u64,
        c.efi_path@ == "\\EFI\\Elohim\\Elohim.efi"@,
        c.resolution == (1024usize, 768usize),
{
    Config {
        physical_memory_address: 0xFFFF800000000000,
        efi_path: "\\EFI\\Elohim\\Elohim.efi",
        resolution: (1024, 768),
    }
}

/// The first graphics mode, in the firmware's order, whose resolution is the
/// wanted one; `None` where no mode has it.
pub fn find_mode(resolutions: &[(usize, usize)], wanted: (usize, usize)) -> (r: Option<usize>)
    ensures
        match r {
            Some(i) => {
                &&& i < resolutions@.len()
                &&& resolutions@[i as int] == wanted
                &&& forall|j: int| 0 <= j < i ==> resolutions@[j] != wanted
            },
            None => forall|j: int| 0 <= j < resolutions@.len() ==> resolutions@[j] != wanted,
        },
{
    let mut i: usize = 0;
    while i < resolutions.len()
        invariant
            i <= resolutions@.len(),
            forall|j: int| 0 <= j < i ==> resolutions@[j] != wanted,
        decreases resolutions.len() - i,
    {
        let m = resolutions[i];
        if m.0 == wanted.0 && m.1 == wanted.1 {
            return Some(i);
        }
        i = i + 1;
    }
    None
}

/// The bytes of the ACPI 2.0 RSDP table GUID 8868e871-e4f1-11d3-bc22-0080c73c8881,
/// in memory order (the first three fields little-endian).
pub open spec fn acpi2_guid_bytes() -> Seq<u8> {
    seq![
        0x71u8, 0xe8, 0x68, 0x88, 0xf1, 0xe4, 0xd3, 0x11,
        0xbc, 0x22, 0x00, 0x80, 0xc7, 0x3c, 0x88, 0x81,
    ]
}

/// `ConfigTableEntry::ACPI2_GUID` of the uefi crate, through `Guid::to_bytes`:
/// the GUID 8868e871-e4f1-11d3-bc22-0080c73c8881 in memory order.
#[verifier::external_body]
fn acpi2_guid() -> (g: [u8; 16])
    ensures
        g@ == acpi2_guid_bytes(),
{
    ConfigTableEntry::ACPI2_GUID.to_bytes()
}

/// Whether two GUIDs (as bytes) are the same.
fn guid_eq(a: &[u8; 16], b: &[u8; 16]) -> (r: bool)
    ensures
        r == (a@ == b@),
{
    let mut i: usize = 0;
    while i < 16
        invariant
            i <= 16,
            forall|k: int| 0 <= k < i ==> a@[k] == b@[k],
        decreases 16 - i,
    {
        if a[i] != b[i] {
            return false;
        }
        i = i + 1;
    }
    assert(a@ =~= b@);
    true
}

/// The first configuration table entry, in the firmware's order, whose GUID
/// is `wanted`; `None` where there is none.
pub fn find_config_entry(guids: &[[u8; 16]], wanted: &[u8; 16]) -> (r: Option<usize>)
    ensures
        match r {
            Some(i) => {
                &&& i < guids@.len()
                &&& guids@[i as int]@ == wanted@
                &&& forall|j: int| 0 <= j < i ==> guids@[j]@ != wanted@
            },
            None => forall|j: int| 0 <= j < guids@.len() ==> guids@[j]@ != wanted@,
        },
{
    let mut i: usize = 0;
    while i < guids.len()
        invariant
            i <= guids@.len(),
            forall|j: int| 0 <= j < i ==> guids@[j]@ != wanted@,
        decreases guids.len() - i,
    {
        if guid_eq(&guids[i], wanted) {
            return Some(i);
        }
        i = i + 1;
    }
    None
}

/// The entry of the configuration table that holds the ACPI 2.0 RSDP: the
/// first whose GUID is the ACPI 2.0 one.
pub fn find_acpi2_entry(guids: &[[u8; 16]]) -> (r: Option<usize>)
    ensures
        match r {
            Some(i) => {
                &&& i < guids@.len()
                &&& guids@[i as int]@ == acpi2_guid_bytes()
                &&& forall|j: int| 0 <= j < i ==> guids@[j]@ != acpi2_guid_bytes()
            },
            None => forall|j: int| 0 <= j < guids@.len() ==> guids@[j]@ != acpi2_guid_bytes(),
        },
{
    let g = acpi2_guid();
    find_config_entry(guids, &g)
}

/// Size of a page and of a frame.
pub const PAGE_SIZE: u64 = 0x1000;

/// How many pages the kernel file is read into: one more than the whole
/// pages it fills, so the buffer is always larger than the file.
pub fn file_page_count(file_size: u64) -> (n: u64)
    ensures
        n == file_size / PAGE_SIZE + 1,
        file_size < n * PAGE_SIZE,
        n * PAGE_SIZE <= file_size + PAGE_SIZE,
{
    let n = file_size / PAGE_SIZE + 1;
    assert(file_size < n * 4096 && n * 4096 <= file_size + 4096) by (nonlinear_arith)
        requires
            n == file_size / 4096 + 1,
    ;
    n
}

/// The size of the buffer the kernel file is read into: its pages in bytes.
pub fn file_buffer_len(file_size: u64) -> (len: u64)
    requires
        (file_size / PAGE_SIZE + 1) * PAGE_SIZE <= u64::MAX,
    ensures
        len == (file_size / PAGE_SIZE + 1) * PAGE_SIZE,
        file_size < len <= file_size + PAGE_SIZE,
{
    let n = file_page_count(file_size);
    n * PAGE_SIZE
}

/// One entry of the firmware's memory map: its UEFI memory type, its first
/// physical address and its length in 4 KiB pages.
#[derive(Clone, Copy, Debug, PartialEq, Eq, Structural)]
pub struct MemoryRegion {
    pub ty: u32,
    pub phys_start: u64,
    pub page_count: u64,
}

impl MemoryRegion {
    /// The first address after the region.
    pub open spec fn end(self) -> int {
        self.phys_start + self.page_count * PAGE_SIZE
    }
}

/// The lowest address that the physical memory mapping covers up to.
pub const MIN_PHYS_LIMIT: u64 = 0x1_0000_0000;

/// The end of physical memory that the kernel maps: the largest end of a
/// region of the memory map, but at least 4 GiB.
pub fn max_phys_addr(regions: &[MemoryRegion]) -> (m: u64)
    requires
        regions@.len() > 0,
        forall|i: int| 0 <= i < regions@.len() ==> #[trigger] regions@[i].end() <= u64::MAX,
    ensures
        m >= MIN_PHYS_LIMIT,
        forall|i: int| 0 <= i < regions@.len() ==> #[trigger] regions@[i].end() <= m,
        m == MIN_PHYS_LIMIT || exists|i: int| 0 <= i < regions@.len() && #[trigger] regions@[i].end() == m,
{
    let first = regions[0];
    assert(regions@[0].end() <= u64::MAX);
    let mut best: u64 = first.phys_start + first.page_count * PAGE_SIZE;
    let mut at: usize = 0;
    let mut i: usize = 1;
    while i < regions.len()
        invariant
            1 <= i <= regions@.len(),
            at < i,
            regions@[at as int].end() == best,
            forall|j: int| 0 <= j < regions@.len() ==> #[trigger] regions@[j].end() <= u64::MAX,
            forall|j: int| 0 <= j < i ==> #[trigger] regions@[j].end() <= best,
        decreases regions.len() - i,
    {
        let r = regions[i];
        assert(regions@[i as int].end() <= u64::MAX);
        let end = r.phys_start + r.page_count * PAGE_SIZE;
        if end > best {
            best = end;
            at = i;
        }
        i = i + 1;
    }
    if best < MIN_PHYS_LIMIT {
        MIN_PHYS_LIMIT
    } else {
        best
    }
}

/// The UEFI memory type of free, usable memory.
pub const CONVENTIONAL_MEMORY: u32 = 7;

/// `MemoryType::CONVENTIONAL` of the uefi crate, read through its field: the
/// UEFI memory type 7.
#[verifier::external_body]
fn conventional_memory_type() -> (t: u32)
    ensures
        t == CONVENTIONAL_MEMORY,
{
    MemoryType::CONVENTIONAL.0
}

/// The address ranges `[start, end)` of the usable (conventional) regions of
/// a memory map, in the map's order.
pub open spec fn usable_ranges(regions: Seq<MemoryRegion>) -> Seq<(u64, u64)>
    decreases regions.len(),
{
    if regions.len() == 0 {
        Seq::empty()
    } else {
        let rest = usable_ranges(regions.drop_last());
        let r = regions.last();
        if r.ty == CONVENTIONAL_MEMORY {
            rest.push((r.phys_start, r.end() as u64))
        } else {
            rest
        }
    }
}

/// The usable physical memory of a memory map: for each conventional region,
/// in order, its first address and the address after it.
pub fn physical_memory_ranges(regions: &[MemoryRegion]) -> (v: Vec<(u64, u64)>)
    requires
        forall|i: int|
            0 <= i < regions@.len() && regions@[i].ty == CONVENTIONAL_MEMORY ==> #[trigger] regions@[i].end()
                <= u64::MAX,
    ensures
        v@ == usable_ranges(regions@),
        v@ == regions@.filter(|r: MemoryRegion| r.ty == CONVENTIONAL_MEMORY).map_values(
            |r: MemoryRegion| (r.phys_start, (r.phys_start + r.page_count * PAGE_SIZE) as u64),
        ),
{
    proof {
        lemma_usable_ranges_are_conventional_regions(regions@);
    }
    let conventional = conventional_memory_type();
    let mut v: Vec<(u64, u64)> = Vec::new();
    let mut i: usize = 0;
    while i < regions.len()
        invariant
            i <= regions@.len(),
            conventional == CONVENTIONAL_MEMORY,
            forall|k: int|
                0 <= k < regions@.len() && regions@[k].ty == CONVENTIONAL_MEMORY ==> #[trigger] regions@[k].end()
                    <= u64::MAX,
            v@ == usable_ranges(regions@.take(i as int)),
        decreases regions.len() - i,
    {
        let r = regions[i];
        assert(regions@.take((i + 1) as int).drop_last() =~= regions@.take(i as int));
        assert(regions@.take((i + 1) as int).last() == r);
        if r.ty == conventional {
            assert(regions@[i as int].end() <= u64::MAX);
            let end = r.phys_start + r.page_count * PAGE_SIZE;
            v.push((r.phys_start, end));
        }
        i = i + 1;
    }
    assert(regions@.take(regions@.len() as int) =~= regions@);
    v
}

/// The usable ranges are exactly the conventional regions, one range per
/// region and in map order, wherever the region lies: the k-th range starts
/// at the k-th conventional region's first address and ends after its last
/// page.
pub proof fn lemma_usable_ranges_are_conventional_regions(regions: Seq<MemoryRegion>)
    ensures
        usable_ranges(regions) == regions.filter(|r: MemoryRegion| r.ty == CONVENTIONAL_MEMORY).map_values(
            |r: MemoryRegion| (r.phys_start, (r.phys_start + r.page_count * PAGE_SIZE) as u64),
        ),
        usable_ranges(regions).len() == regions.filter(
            |r: MemoryRegion| r.ty == CONVENTIONAL_MEMORY,
        ).len(),
    decreases regions.len(),
{
    let p = |r: MemoryRegion| r.ty == CONVENTIONAL_MEMORY;
    let f = |r: MemoryRegion| (r.phys_start, (r.phys_start + r.page_count * PAGE_SIZE) as u64);
    reveal(Seq::filter);
    if regions.len() == 0 {
        assert(regions.filter(p) =~= Seq::<MemoryRegion>::empty());
        assert(regions.filter(p).map_values(f) =~= Seq::<(u64, u64)>::empty());
    } else {
        let front = regions.drop_last();
        lemma_usable_ranges_are_conventional_regions(front);
        let r = regions.last();
        if r.ty == CONVENTIONAL_MEMORY {
            assert(regions.filter(p) == front.filter(p).push(r));
            assert(regions.filter(p).map_values(f) =~= front.filter(p).map_values(f).push(f(r)));
        } else {
            assert(regions.filter(p) == front.filter(p));
        }
    }
}

/// There are no more usable ranges than regions, and every usable range
/// spans whole pages: its end is not below its start and its length is a
/// multiple of the page size.
pub proof fn lemma_usable_ranges_whole_pages(regions: Seq<MemoryRegion>)
    requires
        forall|i: int|
            0 <= i < regions.len() && regions[i].ty == CONVENTIONAL_MEMORY ==> #[trigger] regions[i].end()
                <= u64::MAX,
    ensures
        usable_ranges(regions).len() <= regions.len(),
        forall|k: int|
            0 <= k < usable_ranges(regions).len() ==> {
                let (start, end) = #[trigger] usable_ranges(regions)[k];
                &&& start <= end
                &&& (end - start) % (PAGE_SIZE as int) == 0
            },
    decreases regions.len(),
{
    if regions.len() > 0 {
        let front = regions.drop_last();
        assert forall|i: int|
            0 <= i < front.len() && front[i].ty == CONVENTIONAL_MEMORY implies #[trigger] front[i].end()
                <= u64::MAX by {
            assert(front[i] == regions[i]);
        }
        lemma_usable_ranges_whole_pages(front);
        let r = regions.last();
        if r.ty == CONVENTIONAL_MEMORY {
            assert(regions[regions.len() - 1].end() <= u64::MAX);
            let p = r.page_count as int;
            assert((p * 4096) % 4096 == 0) by (nonlinear_arith);
        }
    }
}

/// The highest physical address plus one that `PhysAddr::new` accepts.
pub const PHYS_ADDR_LIMIT: u64 = 0x10_0000_0000_0000;

/// `PhysFrame::<Size4KiB>::containing_address(PhysAddr::new(addr))` of the
/// x86_64 crate, read back through `start_address` and `as_u64`: the address
/// aligned down to 4 KiB. `PhysAddr::new` panics where bits 52..64 are set.
#[verifier::external_body]
fn containing_frame_start(addr: u64) -> (start: u64)
    requires
        addr < PHYS_ADDR_LIMIT,
    ensures
        start == addr & !0xfffu64,
{
    PhysFrame::<Size4KiB>::containing_address(PhysAddr::new(addr)).start_address().as_u64()
}

/// The 4 KiB frame that holds a freshly allocated page at `addr`, by its
/// start address.
pub fn allocated_frame(addr: u64) -> (frame: u64)
    requires
        addr < PHYS_ADDR_LIMIT,
    ensures
        frame == addr & !0xfffu64,
        frame == addr - addr % 4096,
        frame % 4096 == 0,
        frame <= addr < frame + 4096,
{
    let frame = containing_frame_start(addr);
    assert(addr & !0xfffu64 == addr - addr % 4096) by (bit_vector);
    frame
}

} // verus!
