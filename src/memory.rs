//! Scanning the memory maps that a boot loader hands over, choosing the
//! bootstrap heap, and carving the frame ranges left for general allocation.
use vstd::prelude::*;
use crate::region::{
    cut, cut_region, all_frame_aligned, all_start_at_least, frame_aligned, well_formed,
    lemma_cut_bounds, lemma_cut_from_zero, FrameRange, PAGE_SIZE,
};

verus! {

/// Number of frames of the bootstrap heap (4 MiB).
pub const INIT_HEAP_PAGES: u64 = 0x400;

/// UEFI memory types that count as usable once boot services have exited.
pub const EFI_LOADER_CODE: u32 = 1;
pub const EFI_LOADER_DATA: u32 = 2;
pub const EFI_BOOT_SERVICES_CODE: u32 = 3;
pub const EFI_BOOT_SERVICES_DATA: u32 = 4;
pub const EFI_CONVENTIONAL: u32 = 7;

/// The multiboot2 memory type of available RAM.
pub const MULTIBOOT2_AVAILABLE: u32 = 1;

/// One descriptor of a UEFI memory map.
#[derive(Clone, Copy, Debug, PartialEq, Eq, Structural)]
pub struct EfiMemoryArea {
    pub ty: u32,
    pub phys_start: u64,
    pub page_count: u64,
}

/// One entry of a multiboot2-native memory map.
#[derive(Clone, Copy, Debug, PartialEq, Eq, Structural)]
pub struct Multiboot2MemoryArea {
    pub typ: u32,
    pub start_address: u64,
    pub size: u64,
}

/// The common shape of every map entry: whether it is usable, and the byte
/// range `[start, end)` that it describes.
#[derive(Clone, Copy, Debug, PartialEq, Eq, Structural)]
pub struct MapEntry {
    pub usable: bool,
    pub start: u64,
    pub end: u64,
}

/// Why no memory layout could be derived at boot.
#[derive(Clone, Copy, Debug, PartialEq, Eq, Structural)]
pub enum ScanError {
    /// No usable entry above the kernel image holds the bootstrap heap.
    NoHeapRegion,
}

pub open spec fn is_power_of_two(align: u64) -> bool {
    align > 0 && align & ((align - 1) as u64) == 0
}

pub open spec fn round_down(a: int, align: int) -> int {
    a - a % align
}

pub open spec fn round_up(a: int, align: int) -> int {
    if a % align == 0 {
        a
    } else {
        a - a % align + align
    }
}

/// Relies on x86_64::align_down: the greatest multiple of `align` that is at
/// most `addr`.
#[verifier::external_body]
fn align_down(addr: u64, align: u64) -> (r: u64)
    requires
        is_power_of_two(align),
    ensures
        r == round_down(addr as int, align as int),
{
    x86_64::align_down(addr, align)
}

/// Relies on x86_64::align_up: the least multiple of `align` that is at least
/// `addr`; it panics where that does not fit in 64 bits.
#[verifier::external_body]
pub(crate) fn align_up(addr: u64, align: u64) -> (r: u64)
    requires
        is_power_of_two(align),
        round_up(addr as int, align as int) <= u64::MAX,
    ensures
        r == round_up(addr as int, align as int),
{
    x86_64::align_up(addr, align)
}

pub(crate) proof fn lemma_page_size_power_of_two()
    ensures
        is_power_of_two(PAGE_SIZE),
{
    assert(4096u64 & 4095u64 == 0) by (bit_vector);
}

pub open spec fn efi_type_usable(ty: u32) -> bool {
    ty == EFI_CONVENTIONAL || ty == EFI_LOADER_CODE || ty == EFI_LOADER_DATA
        || ty == EFI_BOOT_SERVICES_CODE || ty == EFI_BOOT_SERVICES_DATA
}

/// Whether a UEFI memory type is usable after boot services have exited.
pub fn is_efi_type_usable(ty: u32) -> (r: bool)
    ensures
        r == efi_type_usable(ty),
{
    ty == EFI_CONVENTIONAL || ty == EFI_LOADER_CODE || ty == EFI_LOADER_DATA
        || ty == EFI_BOOT_SERVICES_CODE || ty == EFI_BOOT_SERVICES_DATA
}

/// The end of a byte range of `len` bytes from `start`, capped at the top of
/// the address space.
pub open spec fn capped_end(start: u64, len: int) -> u64 {
    if start + len > u64::MAX {
        u64::MAX
    } else {
        (start + len) as u64
    }
}

pub open spec fn efi_entry(a: EfiMemoryArea) -> MapEntry {
    MapEntry {
        usable: efi_type_usable(a.ty),
        start: a.phys_start,
        end: capped_end(a.phys_start, a.page_count * PAGE_SIZE),
    }
}

pub open spec fn multiboot2_entry(a: Multiboot2MemoryArea) -> MapEntry {
    MapEntry {
        usable: a.typ == MULTIBOOT2_AVAILABLE,
        start: a.start_address,
        end: capped_end(a.start_address, a.size as int),
    }
}

fn capped_add(start: u64, len: u64) -> (r: u64)
    ensures
        r == capped_end(start, len as int),
{
    if len > u64::MAX - start {
        u64::MAX
    } else {
        start + len
    }
}

impl EfiMemoryArea {
    /// The descriptor in the common shape of map entries.
    pub fn to_map_entry(&self) -> (r: MapEntry)
        ensures
            r == efi_entry(*self),
    {
        let len: u64 = if self.page_count > u64::MAX / PAGE_SIZE {
            u64::MAX
        } else {
            self.page_count * PAGE_SIZE
        };
        MapEntry {
            usable: is_efi_type_usable(self.ty),
            start: self.phys_start,
            end: capped_add(self.phys_start, len),
        }
    }
}

impl Multiboot2MemoryArea {
    /// The entry in the common shape of map entries.
    pub fn to_map_entry(&self) -> (r: MapEntry)
        ensures
            r == multiboot2_entry(*self),
    {
        MapEntry {
            usable: self.typ == MULTIBOOT2_AVAILABLE,
            start: self.start_address,
            end: capped_add(self.start_address, self.size),
        }
    }
}

/// The entries of a UEFI memory map in their common shape.
pub fn efi_entries(areas: &[EfiMemoryArea]) -> (r: Vec<MapEntry>)
    ensures
        r@ == areas@.map_values(|a: EfiMemoryArea| efi_entry(a)),
{
    let mut entries: Vec<MapEntry> = Vec::new();
    let mut i: usize = 0;
    while i < areas.len()
        invariant
            i <= areas@.len(),
            entries@ == areas@.subrange(0, i as int).map_values(|a: EfiMemoryArea| efi_entry(a)),
        decreases areas.len() - i,
    {
        entries.push(areas[i].to_map_entry());
        assert(entries@ =~= areas@.subrange(0, i + 1).map_values(|a: EfiMemoryArea| efi_entry(a)));
        i += 1;
    }
    assert(areas@.subrange(0, areas@.len() as int) =~= areas@);
    entries
}

/// The entries of a multiboot2-native memory map in their common shape.
pub fn multiboot2_entries(areas: &[Multiboot2MemoryArea]) -> (r: Vec<MapEntry>)
    ensures
        r@ == areas@.map_values(|a: Multiboot2MemoryArea| multiboot2_entry(a)),
{
    let mut entries: Vec<MapEntry> = Vec::new();
    let mut i: usize = 0;
    while i < areas.len()
        invariant
            i <= areas@.len(),
            entries@ == areas@.subrange(0, i as int).map_values(
                |a: Multiboot2MemoryArea| multiboot2_entry(a),
            ),
        decreases areas.len() - i,
    {
        entries.push(areas[i].to_map_entry());
        assert(entries@ =~= areas@.subrange(0, i + 1).map_values(
            |a: Multiboot2MemoryArea| multiboot2_entry(a),
        ));
        i += 1;
    }
    assert(areas@.subrange(0, areas@.len() as int) =~= areas@);
    entries
}

/// First whole frame of an entry: its start rounded up to a frame boundary.
pub open spec fn frames_start(e: MapEntry) -> int {
    round_up(e.start as int, PAGE_SIZE as int)
}

/// End of the last whole frame of an entry: its end rounded down.
pub open spec fn frames_end(e: MapEntry) -> int {
    round_down(e.end as int, PAGE_SIZE as int)
}

/// The entry holds at least one whole frame.
pub open spec fn has_frames(e: MapEntry) -> bool {
    frames_start(e) < frames_end(e)
}

/// The whole frames of an entry, as a frame range.
pub open spec fn entry_frames(e: MapEntry) -> FrameRange {
    FrameRange { start: frames_start(e) as u64, end: frames_end(e) as u64 }
}

pub open spec fn frame_count(e: MapEntry) -> int {
    (frames_end(e) - frames_start(e)) / (PAGE_SIZE as int)
}

/// An entry can hold the bootstrap heap: it is usable, has enough whole
/// frames, and starts at or above the end of the kernel image.
pub open spec fn heap_candidate(e: MapEntry, kernel_end: u64) -> bool {
    e.usable && has_frames(e) && frame_count(e) >= INIT_HEAP_PAGES && e.start >= kernel_end
}

/// Entry `i` is the candidate with the smallest start among the first `n`
/// entries (the earliest one among equal starts).
pub open spec fn lowest_candidate(entries: Seq<MapEntry>, i: int, n: int, kernel_end: u64) -> bool {
    0 <= i < n && n <= entries.len() && heap_candidate(entries[i], kernel_end) && forall|j: int|
        0 <= j < n && #[trigger] heap_candidate(entries[j], kernel_end) ==> entries[i].start
            < entries[j].start || (entries[i].start == entries[j].start && i <= j)
}

pub open spec fn any_candidate(entries: Seq<MapEntry>, kernel_end: u64) -> bool {
    exists|j: int| 0 <= j < entries.len() && #[trigger] heap_candidate(entries[j], kernel_end)
}

/// The bootstrap heap placed at the first whole frame of an entry.
pub open spec fn heap_in(e: MapEntry) -> FrameRange {
    FrameRange {
        start: frames_start(e) as u64,
        end: (frames_start(e) + INIT_HEAP_PAGES * PAGE_SIZE) as u64,
    }
}

/// The whole frames of every usable entry, in map order; entries without a
/// whole frame are dropped.
pub open spec fn raw_regions(entries: Seq<MapEntry>) -> Seq<FrameRange>
    decreases entries.len(),
{
    if entries.len() == 0 {
        seq![]
    } else {
        let e = entries.last();
        let init = raw_regions(entries.drop_last());
        if e.usable && has_frames(e) {
            init.push(entry_frames(e))
        } else {
            init
        }
    }
}

proof fn lemma_round_up_below(a: int, m: int)
    requires
        0 <= a <= m,
        m % (PAGE_SIZE as int) == 0,
    ensures
        round_up(a, PAGE_SIZE as int) <= m,
        round_up(a, PAGE_SIZE as int) >= a,
        round_up(a, PAGE_SIZE as int) % (PAGE_SIZE as int) == 0,
{
}

proof fn lemma_raw_regions_aligned(entries: Seq<MapEntry>)
    ensures
        all_frame_aligned(raw_regions(entries)),
    decreases entries.len(),
{
    if entries.len() > 0 {
        lemma_raw_regions_aligned(entries.drop_last());
        let e = entries.last();
        let init = raw_regions(entries.drop_last());
        if e.usable && has_frames(e) {
            assert(frame_aligned(entry_frames(e)));
            assert forall|i: int| 0 <= i < raw_regions(entries).len() implies frame_aligned(
                #[trigger] raw_regions(entries)[i],
            ) by {
                if i < init.len() {
                    assert(raw_regions(entries)[i] == init[i]);
                }
            }
        }
    }
}

/// Finds the bootstrap heap without allocating: the first whole frames of
/// the candidate with the smallest start (the earliest among equal starts);
/// `None` exactly when no entry can hold the heap. The heap is frame aligned,
/// lies inside a usable entry, and starts at or above `kernel_end`.
pub fn find_heap_region(entries: &[MapEntry], kernel_end: u64) -> (r: Option<FrameRange>)
    ensures
        r is None <==> !any_candidate(entries@, kernel_end),
        r is Some ==> exists|i: int| lowest_candidate(entries@, i, entries@.len() as int, kernel_end)
            && r->Some_0 == heap_in(#[trigger] entries@[i]),
        r is Some ==> frame_aligned(r->Some_0) && r->Some_0.start >= kernel_end
            && r->Some_0.end - r->Some_0.start == INIT_HEAP_PAGES * PAGE_SIZE
            && exists|i: int| 0 <= i < entries@.len() && (#[trigger] entries@[i]).usable
                && entries@[i].start <= r->Some_0.start
                && r->Some_0.end <= entries@[i].end,
{
    proof {
        lemma_page_size_power_of_two();
    }
    let mut best: Option<usize> = None;
    let mut best_start: u64 = 0;
    let mut i: usize = 0;
    while i < entries.len()
        invariant
            is_power_of_two(PAGE_SIZE),
            i <= entries@.len(),
            best is None ==> forall|j: int| 0 <= j < i ==> !#[trigger] heap_candidate(entries@[j], kernel_end),
            best is Some ==> lowest_candidate(entries@, best->Some_0 as int, i as int, kernel_end)
                && best_start == frames_start(entries@[best->Some_0 as int]),
        decreases entries.len() - i,
    {
        let e = entries[i];
        let end_down = align_down(e.end, PAGE_SIZE);
        if e.usable && e.start <= end_down && e.start >= kernel_end {
            proof {
                lemma_round_up_below(e.start as int, end_down as int);
            }
            let start_up = align_up(e.start, PAGE_SIZE);
            if start_up < end_down && (end_down - start_up) / PAGE_SIZE >= INIT_HEAP_PAGES {
                let better = match best {
                    None => true,
                    Some(b) => e.start < entries[b].start,
                };
                if better {
                    best = Some(i);
                    best_start = start_up;
                }
            }
        }
        i += 1;
    }
    match best {
        None => None,
        Some(b) => Some(FrameRange { start: best_start, end: best_start + INIT_HEAP_PAGES * PAGE_SIZE }),
    }
}

/// The whole frames of every usable entry, in map order, each frame aligned.
pub fn usable_regions(entries: &[MapEntry]) -> (r: Vec<FrameRange>)
    ensures
        r@ == raw_regions(entries@),
        all_frame_aligned(r@),
{
    proof {
        lemma_page_size_power_of_two();
    }
    let mut regions: Vec<FrameRange> = Vec::new();
    let mut i: usize = 0;
    while i < entries.len()
        invariant
            is_power_of_two(PAGE_SIZE),
            i <= entries@.len(),
            regions@ == raw_regions(entries@.subrange(0, i as int)),
        decreases entries.len() - i,
    {
        let e = entries[i];
        let end_down = align_down(e.end, PAGE_SIZE);
        proof {
            let s = entries@.subrange(0, i + 1);
            assert(s.drop_last() =~= entries@.subrange(0, i as int));
            assert(s.last() == e);
        }
        if e.usable && e.start <= end_down {
            proof {
                lemma_round_up_below(e.start as int, end_down as int);
            }
            let start_up = align_up(e.start, PAGE_SIZE);
            if start_up < end_down {
                regions.push(FrameRange { start: start_up, end: end_down });
            }
        }
        i += 1;
    }
    proof {
        assert(entries@.subrange(0, entries@.len() as int) =~= entries@);
        lemma_raw_regions_aligned(entries@);
    }
    regions
}

/// Scans a memory map in its common shape: places the bootstrap heap in
/// `heap_region` and lists the whole frames of every usable entry (the
/// heap's frames included). Fails, leaving `heap_region` as it was, exactly
/// when no entry can hold the heap.
pub fn scan_memory_map(entries: &[MapEntry], kernel_end: u64, heap_region: &mut FrameRange) -> (r: Result<Vec<FrameRange>, ScanError>)
    ensures
        r is Err <==> !any_candidate(entries@, kernel_end),
        r is Err ==> r == Err::<Vec<FrameRange>, ScanError>(ScanError::NoHeapRegion)
            && *final(heap_region) == *old(heap_region),
        r is Ok ==> r->Ok_0@ == raw_regions(entries@)
            && all_frame_aligned(r->Ok_0@)
            && exists|i: int| lowest_candidate(entries@, i, entries@.len() as int, kernel_end)
                && *final(heap_region) == heap_in(#[trigger] entries@[i]),
{
    match find_heap_region(entries, kernel_end) {
        None => Err(ScanError::NoHeapRegion),
        Some(heap) => {
            *heap_region = heap;
            Ok(usable_regions(entries))
        },
    }
}

/// Scans a UEFI memory map, obtained live or from the multiboot2 information.
pub fn scan_efi_memory_map(areas: &[EfiMemoryArea], kernel_end: u64, heap_region: &mut FrameRange) -> (r: Result<Vec<FrameRange>, ScanError>)
    ensures
        ({
            let entries = areas@.map_values(|a: EfiMemoryArea| efi_entry(a));
            &&& r is Err <==> !any_candidate(entries, kernel_end)
            &&& r is Err ==> *final(heap_region) == *old(heap_region)
            &&& r is Ok ==> r->Ok_0@ == raw_regions(entries) && exists|i: int|
                lowest_candidate(entries, i, entries.len() as int, kernel_end)
                    && *final(heap_region) == heap_in(#[trigger] entries[i])
        }),
{
    let entries = efi_entries(areas);
    scan_memory_map(entries.as_slice(), kernel_end, heap_region)
}

/// Scans a multiboot2-native memory map.
pub fn scan_multiboot2_memory_map(areas: &[Multiboot2MemoryArea], kernel_end: u64, heap_region: &mut FrameRange) -> (r: Result<Vec<FrameRange>, ScanError>)
    ensures
        ({
            let entries = areas@.map_values(|a: Multiboot2MemoryArea| multiboot2_entry(a));
            &&& r is Err <==> !any_candidate(entries, kernel_end)
            &&& r is Err ==> *final(heap_region) == *old(heap_region)
            &&& r is Ok ==> r->Ok_0@ == raw_regions(entries) && exists|i: int|
                lowest_candidate(entries, i, entries.len() as int, kernel_end)
                    && *final(heap_region) == heap_in(#[trigger] entries[i])
        }),
{
    let entries = multiboot2_entries(areas);
    scan_memory_map(entries.as_slice(), kernel_end, heap_region)
}

/// The frames of the kernel image `[start, end)`: the start must lie on a
/// frame boundary, the end is rounded up to one. `None` when the start is not
/// aligned or the rounded end does not fit in 64 bits.
pub fn kernel_image_region(start: u64, end: u64) -> (r: Option<FrameRange>)
    ensures
        r is None <==> start % PAGE_SIZE != 0 || round_up(end as int, PAGE_SIZE as int) > u64::MAX,
        r is Some ==> r->Some_0 == (FrameRange {
            start,
            end: round_up(end as int, PAGE_SIZE as int) as u64,
        }),
{
    proof {
        lemma_page_size_power_of_two();
    }
    if start % PAGE_SIZE != 0 || end > u64::MAX - (PAGE_SIZE - 1) && end % PAGE_SIZE != 0 {
        None
    } else {
        Some(FrameRange { start, end: align_up(end, PAGE_SIZE) })
    }
}

/// The null page `[0, 4 KiB)`.
pub open spec fn null_page() -> FrameRange {
    FrameRange { start: 0, end: PAGE_SIZE }
}

/// The three cuts of the boot sequence: null page, kernel image, bootstrap heap.
pub open spec fn boot_cuts(raw: Seq<FrameRange>, kernel: FrameRange, heap: FrameRange) -> Seq<
    FrameRange,
> {
    cut(cut(cut(raw, null_page()), kernel), heap)
}

/// Removes the null page, the kernel image and the bootstrap heap from the
/// regions a memory map reported. No range of the result starts at address
/// zero; when the inputs are frame aligned, so is the result.
pub fn available_regions(raw: Vec<FrameRange>, kernel: FrameRange, heap: FrameRange) -> (r: Vec<
    FrameRange,
>)
    requires
        well_formed(kernel),
        well_formed(heap),
    ensures
        r@ == boot_cuts(raw@, kernel, heap),
        all_start_at_least(r@, PAGE_SIZE as int),
        forall|i: int| 0 <= i < r@.len() ==> (#[trigger] r@[i]).start != 0,
        all_frame_aligned(raw@) && frame_aligned(kernel) && frame_aligned(heap)
            ==> all_frame_aligned(r@),
{
    let null_region = FrameRange { start: 0, end: PAGE_SIZE };
    let a = cut_region(raw, null_region);
    let b = cut_region(a, kernel);
    let c = cut_region(b, heap);
    proof {
        lemma_cut_from_zero(raw@, null_region);
        lemma_cut_bounds(raw@, null_region, 0);
        lemma_cut_bounds(a@, kernel, PAGE_SIZE as int);
        lemma_cut_bounds(b@, heap, PAGE_SIZE as int);
        assert forall|i: int| 0 <= i < c@.len() implies (#[trigger] c@[i]).start != 0 by {
            assert(c@[i].start >= PAGE_SIZE);
        }
    }
    c
}

/// The memory layout that the boot sequence derives from a map.
#[derive(Clone, Debug)]
pub struct BootMemory {
    pub heap: FrameRange,
    pub regions: Vec<FrameRange>,
}

/// Scans a map, places the bootstrap heap, and cuts the null page, the kernel
/// image and the heap out of the usable regions.
///
/// The regions that result are frame aligned and none starts at address
/// zero; the heap lies inside a usable entry and above the kernel image.
pub fn plan_boot_memory(entries: &[MapEntry], kernel: FrameRange) -> (r: Result<BootMemory, ScanError>)
    requires
        well_formed(kernel),
        frame_aligned(kernel),
    ensures
        r is Err <==> !any_candidate(entries@, kernel.end),
        r is Ok ==> {
            let m = r->Ok_0;
            &&& (exists|i: int| lowest_candidate(entries@, i, entries@.len() as int, kernel.end)
                && m.heap == heap_in(#[trigger] entries@[i]))
            &&& m.regions@ == boot_cuts(raw_regions(entries@), kernel, m.heap)
            &&& all_frame_aligned(m.regions@)
            &&& forall|i: int| 0 <= i < m.regions@.len() ==> (#[trigger] m.regions@[i]).start != 0
            &&& m.heap.start >= kernel.end
            &&& exists|i: int| 0 <= i < entries@.len() && (#[trigger] entries@[i]).usable
                && entries@[i].start <= m.heap.start && m.heap.end <= entries@[i].end
        },
{
    match find_heap_region(entries, kernel.end) {
        None => Err(ScanError::NoHeapRegion),
        Some(heap) => {
            let regions = available_regions(usable_regions(entries), kernel, heap);
            Ok(BootMemory { heap, regions })
        },
    }
}

} // verus!
