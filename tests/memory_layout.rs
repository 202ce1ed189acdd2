use hhutos_core::memory::{
    available_regions, efi_entries, find_heap_region, usable_regions, is_efi_type_usable, kernel_image_region, multiboot2_entries,
    plan_boot_memory, scan_efi_memory_map, scan_memory_map, scan_multiboot2_memory_map,
    EfiMemoryArea, MapEntry, Multiboot2MemoryArea, ScanError, INIT_HEAP_PAGES,
};
use hhutos_core::region::{cut_region, FrameRange};

fn fr(start: u64, end: u64) -> FrameRange {
    FrameRange { start, end }
}

fn usable(start: u64, end: u64) -> MapEntry {
    MapEntry { usable: true, start, end }
}

#[test]
fn cut_keeps_region_below_and_above() {
    let r = cut_region(vec![fr(0x0, 0x1000), fr(0x9000, 0xa000)], fr(0x2000, 0x4000));
    assert_eq!(r, vec![fr(0x0, 0x1000), fr(0x9000, 0xa000)]);
}

#[test]
fn cut_region_straddling_lower_edge() {
    let r = cut_region(vec![fr(0x1000, 0x3000)], fr(0x2000, 0x4000));
    assert_eq!(r, vec![fr(0x1000, 0x2000)]);
}

#[test]
fn cut_region_containing_reserved() {
    let r = cut_region(vec![fr(0x1000, 0x9000)], fr(0x2000, 0x4000));
    assert_eq!(r, vec![fr(0x1000, 0x2000), fr(0x4000, 0x9000)]);
}

#[test]
fn cut_region_straddling_upper_edge() {
    let r = cut_region(vec![fr(0x3000, 0x9000)], fr(0x2000, 0x4000));
    assert_eq!(r, vec![fr(0x4000, 0x9000)]);
}

#[test]
fn cut_region_inside_reserved() {
    let r = cut_region(vec![fr(0x2000, 0x3000), fr(0x2000, 0x4000)], fr(0x2000, 0x4000));
    assert_eq!(r, vec![]);
}

#[test]
fn cut_adjacent_regions_stay_whole() {
    let r = cut_region(vec![fr(0x0, 0x2000), fr(0x4000, 0x6000)], fr(0x2000, 0x4000));
    assert_eq!(r, vec![fr(0x0, 0x2000), fr(0x4000, 0x6000)]);
}

#[test]
fn cut_by_itself_is_empty() {
    let r = fr(0x5000, 0x9000);
    assert_eq!(cut_region(vec![r], r), vec![]);
}

#[test]
fn cut_by_empty_range_is_identity() {
    let regions = vec![fr(0x1000, 0x3000), fr(0x5000, 0x8000)];
    assert_eq!(cut_region(regions.clone(), fr(0x4000, 0x4000)), regions);
    assert_eq!(cut_region(regions.clone(), fr(0x3000, 0x3000)), regions);
}

#[test]
fn cut_commutes_for_disjoint_ranges() {
    let regions = vec![fr(0x0, 0xa000), fr(0xc000, 0x20000)];
    let a = fr(0x2000, 0x3000);
    let b = fr(0x9000, 0xd000);
    let ab = cut_region(cut_region(regions.clone(), a), b);
    let ba = cut_region(cut_region(regions, b), a);
    assert_eq!(ab, ba);
    assert_eq!(ab, vec![fr(0x0, 0x2000), fr(0x3000, 0x9000), fr(0xd000, 0x20000)]);
}

#[test]
fn cut_result_covers_union_minus_reserved() {
    let regions = vec![fr(0x0, 0x4000), fr(0x6000, 0xa000)];
    let k = fr(0x3000, 0x7000);
    let r = cut_region(regions.clone(), k);
    for page in 0..0xc {
        let a = page * 0x1000;
        let in_input = regions.iter().any(|x| x.start <= a && a < x.end);
        let in_k = k.start <= a && a < k.end;
        let hits = r.iter().filter(|x| x.start <= a && a < x.end).count();
        assert_eq!(hits, if in_input && !in_k { 1 } else { 0 });
    }
}

#[test]
fn single_region_scan_needs_entry_above_kernel() {
    let mut heap = fr(0, 0);
    let r = scan_memory_map(&vec![usable(0x100000, 0x10000000)], 0x200000, &mut heap);
    assert_eq!(r, Err(ScanError::NoHeapRegion));
    assert_eq!(heap, fr(0, 0));
}

#[test]
fn single_region_final_regions() {
    let r = available_regions(vec![fr(0x100000, 0x10000000)], fr(0x100000, 0x200000), fr(0x200000, 0x600000));
    assert_eq!(r, vec![fr(0x600000, 0x10000000)]);
}

#[test]
fn region_straddling_kernel_image() {
    let kernel = fr(0x100000, 0x200000);
    let heap = fr(0x400000, 0x800000);
    let r = available_regions(vec![fr(0x0, 0x10000000)], kernel, heap);
    assert_eq!(r, vec![fr(0x1000, 0x100000), fr(0x200000, 0x400000), fr(0x800000, 0x10000000)]);
}

#[test]
fn plan_places_heap_above_kernel() {
    let entries = vec![usable(0x0, 0x9f000), usable(0x100000, 0x200000), usable(0x200000, 0x10000000)];
    let m = plan_boot_memory(&entries, fr(0x100000, 0x200000)).unwrap();
    assert_eq!(m.heap, fr(0x200000, 0x600000));
    assert_eq!(m.regions, vec![fr(0x1000, 0x9f000), fr(0x600000, 0x10000000)]);
}

#[test]
fn no_region_large_enough() {
    let entries = vec![usable(0x200000, 0x200000 + (INIT_HEAP_PAGES - 1) * 0x1000), usable(0x800000, 0x900000)];
    assert!(matches!(plan_boot_memory(&entries, fr(0x100000, 0x200000)), Err(ScanError::NoHeapRegion)));
}

#[test]
fn heap_goes_to_lowest_candidate() {
    let entries = vec![
        usable(0x4000000, 0x8000000),
        MapEntry { usable: false, start: 0x1000000, end: 0x2000000 },
        usable(0x2000000, 0x3000000),
        usable(0x3000000, 0x3100000),
    ];
    let mut heap = fr(0, 0);
    let r = scan_memory_map(&entries, 0x200000, &mut heap).unwrap();
    assert_eq!(heap, fr(0x2000000, 0x2400000));
    assert_eq!(r, vec![fr(0x4000000, 0x8000000), fr(0x2000000, 0x3000000), fr(0x3000000, 0x3100000)]);
}

#[test]
fn unaligned_entries_are_rounded_inwards() {
    let entries = vec![usable(0x200001, 0x700fff), usable(0x900010, 0x900ff0)];
    let mut heap = fr(0, 0);
    let r = scan_memory_map(&entries, 0x200000, &mut heap).unwrap();
    assert_eq!(heap, fr(0x201000, 0x601000));
    assert_eq!(r, vec![fr(0x201000, 0x700000)]);
}

#[test]
fn efi_map_scan() {
    let areas = vec![
        EfiMemoryArea { ty: 7, phys_start: 0x1000, page_count: 0x9e },
        EfiMemoryArea { ty: 2, phys_start: 0x100000, page_count: 0x100 },
        EfiMemoryArea { ty: 0, phys_start: 0x200000, page_count: 0x2000 },
        EfiMemoryArea { ty: 4, phys_start: 0x2200000, page_count: 0x800 },
        EfiMemoryArea { ty: 3, phys_start: 0x3000000, page_count: 0x400 },
    ];
    let mut heap = fr(0, 0);
    let r = scan_efi_memory_map(&areas, 0x200000, &mut heap).unwrap();
    assert_eq!(heap, fr(0x2200000, 0x2600000));
    assert_eq!(
        r,
        vec![fr(0x1000, 0x9f000), fr(0x100000, 0x200000), fr(0x2200000, 0x2a00000), fr(0x3000000, 0x3400000)]
    );
}

#[test]
fn efi_entries_convert_pages_to_bytes() {
    let e = efi_entries(&vec![
        EfiMemoryArea { ty: 1, phys_start: 0x5000, page_count: 3 },
        EfiMemoryArea { ty: 9, phys_start: 0xffff_ffff_ffff_0000, page_count: 0x100 },
    ]);
    assert_eq!(e[0], MapEntry { usable: true, start: 0x5000, end: 0x8000 });
    assert_eq!(e[1], MapEntry { usable: false, start: 0xffff_ffff_ffff_0000, end: u64::MAX });
}

#[test]
fn efi_usable_types() {
    for ty in [1u32, 2, 3, 4, 7] {
        assert!(is_efi_type_usable(ty));
    }
    for ty in [0u32, 5, 6, 8, 9, 10, 11, 14] {
        assert!(!is_efi_type_usable(ty));
    }
}

#[test]
fn multiboot2_map_scan() {
    let areas = vec![
        Multiboot2MemoryArea { typ: 1, start_address: 0x0, size: 0x9fc00 },
        Multiboot2MemoryArea { typ: 2, start_address: 0x9fc00, size: 0x400 },
        Multiboot2MemoryArea { typ: 1, start_address: 0x300000, size: 0x7d00000 },
    ];
    let e = multiboot2_entries(&areas);
    assert_eq!(e[1], MapEntry { usable: false, start: 0x9fc00, end: 0xa0000 });
    let mut heap = fr(0, 0);
    let r = scan_multiboot2_memory_map(&areas, 0x280000, &mut heap).unwrap();
    assert_eq!(heap, fr(0x300000, 0x700000));
    assert_eq!(r, vec![fr(0x0, 0x9f000), fr(0x300000, 0x8000000)]);
}

#[test]
fn kernel_image_end_rounded_up() {
    assert_eq!(kernel_image_region(0x100000, 0x1ff001), Some(fr(0x100000, 0x200000)));
    assert_eq!(kernel_image_region(0x100000, 0x200000), Some(fr(0x100000, 0x200000)));
    assert_eq!(kernel_image_region(0x100800, 0x200000), None);
    assert_eq!(kernel_image_region(0x100000, u64::MAX), None);
}

#[test]
fn final_regions_never_start_at_zero() {
    let r = available_regions(vec![fr(0x0, 0x1000), fr(0x0, 0x5000)], fr(0x0, 0x0), fr(0x3000, 0x4000));
    assert_eq!(r, vec![fr(0x1000, 0x3000), fr(0x4000, 0x5000)]);
}

#[test]
fn heap_search_and_region_list_agree_with_scan() {
    let entries = [usable(0x0, 0x9f000), usable(0x1000000, 0x1800000), usable(0x800000, 0xc00000)];
    assert_eq!(find_heap_region(&entries, 0x200000), Some(fr(0x800000, 0xc00000)));
    assert_eq!(find_heap_region(&entries, 0x900000), Some(fr(0x1000000, 0x1400000)));
    assert_eq!(find_heap_region(&entries, 0x1000001), None);
    assert_eq!(usable_regions(&entries), vec![fr(0x0, 0x9f000), fr(0x1000000, 0x1800000), fr(0x800000, 0xc00000)]);
}

#[test]
fn per_entry_conversions() {
    let e = EfiMemoryArea { ty: 7, phys_start: 0x10000, page_count: 0x10 }.to_map_entry();
    assert_eq!(e, usable(0x10000, 0x20000));
    let m = Multiboot2MemoryArea { typ: 3, start_address: 0x10000, size: 0x1000 }.to_map_entry();
    assert_eq!(m, MapEntry { usable: false, start: 0x10000, end: 0x11000 });
}
