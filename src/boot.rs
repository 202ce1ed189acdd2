//! Decisions of the boot sequence that depend on what the boot loader
//! provides.
use vstd::prelude::*;
use crate::memory::{align_up, lemma_page_size_power_of_two, round_up};
use crate::region::{FrameRange, PAGE_SIZE};

verus! {

/// Where the memory map comes from.
#[derive(Clone, Copy, Debug, PartialEq, Eq, Structural)]
pub enum MemorySource {
    /// UEFI boot services are still active: exit them and take the map
    /// they hand back.
    LiveEfi,
    /// The UEFI map that the boot loader copied into the multiboot2 information.
    EfiTag,
    /// The multiboot2-native map.
    Multiboot2Tag,
}

/// Live UEFI services take precedence over a copied UEFI map, which takes
/// precedence over the native map; `None` when there is no memory
/// information at all.
pub fn select_memory_source(
    boot_services_active: bool,
    has_efi_map_tag: bool,
    has_multiboot2_map_tag: bool,
) -> (r: Option<MemorySource>)
    ensures
        boot_services_active ==> r == Some(MemorySource::LiveEfi),
        !boot_services_active && has_efi_map_tag ==> r == Some(MemorySource::EfiTag),
        !boot_services_active && !has_efi_map_tag && has_multiboot2_map_tag ==> r == Some(
            MemorySource::Multiboot2Tag,
        ),
        !boot_services_active && !has_efi_map_tag && !has_multiboot2_map_tag ==> r is None,
{
    if boot_services_active {
        Some(MemorySource::LiveEfi)
    } else if has_efi_map_tag {
        Some(MemorySource::EfiTag)
    } else if has_multiboot2_map_tag {
        Some(MemorySource::Multiboot2Tag)
    } else {
        None
    }
}

/// The pages of a framebuffer of `height` lines of `pitch` bytes at
/// `address`: the address must lie on a page boundary, the end is rounded up
/// to one. `None` when the address is not aligned or the end does not fit in
/// 64 bits.
pub fn framebuffer_region(address: u64, pitch: u32, height: u32) -> (r: Option<FrameRange>)
    ensures
        r is None <==> address % PAGE_SIZE != 0 || round_up(
            address + height * pitch,
            PAGE_SIZE as int,
        ) > u64::MAX,
        r is Some ==> r->Some_0 == (FrameRange {
            start: address,
            end: round_up(address + height * pitch, PAGE_SIZE as int) as u64,
        }),
{
    proof {
        lemma_page_size_power_of_two();
        assert(height * pitch <= 0xffff_ffff * 0xffff_ffff) by (nonlinear_arith)
            requires
                height <= 0xffff_ffff,
                pitch <= 0xffff_ffff,
        ;
    }
    let size: u64 = height as u64 * pitch as u64;
    if address % PAGE_SIZE != 0 || size > u64::MAX - address {
        return None;
    }
    let end: u64 = address + size;
    if end > u64::MAX - (PAGE_SIZE - 1) && end % PAGE_SIZE != 0 {
        return None;
    }
    Some(FrameRange { start: address, end: align_up(end, PAGE_SIZE) })
}

} // verus!
