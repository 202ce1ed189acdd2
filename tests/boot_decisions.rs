use hhutos_core::boot::{framebuffer_region, select_memory_source, MemorySource};
use hhutos_core::region::FrameRange;

#[test]
fn live_efi_services_take_precedence() {
    assert_eq!(select_memory_source(true, true, true), Some(MemorySource::LiveEfi));
    assert_eq!(select_memory_source(false, true, true), Some(MemorySource::EfiTag));
    assert_eq!(select_memory_source(false, false, true), Some(MemorySource::Multiboot2Tag));
    assert_eq!(select_memory_source(false, false, false), None);
}

#[test]
fn framebuffer_pages() {
    assert_eq!(framebuffer_region(0xfd00_0000, 2560, 480), Some(FrameRange { start: 0xfd00_0000, end: 0xfd12_c000 }));
    assert_eq!(framebuffer_region(0xfd00_0000, 100, 3), Some(FrameRange { start: 0xfd00_0000, end: 0xfd00_1000 }));
    assert_eq!(framebuffer_region(0xfd00_0010, 2560, 480), None);
    assert_eq!(framebuffer_region(0xffff_ffff_ffff_f000, 4096, 2), None);
}
