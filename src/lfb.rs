//! Linear frame buffers, and a frame buffer drawn in memory first and then
//! copied to the screen as a whole.
use vstd::prelude::*;

verus! {

/// A linear frame buffer: the address of its first byte, the bytes per line,
/// the visible width and height in pixels, and the bits per pixel.
#[derive(Clone, Copy, Debug, PartialEq, Eq, Structural)]
pub struct LFB {
    pub address: u64,
    pub pitch: u32,
    pub width: u32,
    pub height: u32,
    pub bpp: u8,
}

impl LFB {
    pub fn new(address: u64, pitch: u32, width: u32, height: u32, bpp: u8) -> (r: LFB)
        ensures
            r == (LFB { address, pitch, width, height, bpp }),
    {
        LFB { address, pitch, width, height, bpp }
    }

    /// Number of bytes the buffer spans: one pitch per line.
    pub open spec fn size(&self) -> int {
        self.height * self.pitch
    }
}

/// Relies on Vec::as_ptr: the address of the vector's buffer, which stays
/// where it is while the vector is neither grown nor dropped.
#[verifier::external_body]
fn buffer_address(buffer: &Vec<u8>) -> (r: u64) {
    buffer.as_ptr() as u64
}

/// A frame buffer in memory, of the geometry of a target frame buffer.
pub struct BufferedLFB {
    buffer: Vec<u8>,
    lfb: LFB,
    target_lfb: LFB,
}

impl BufferedLFB {
    pub closed spec fn buffer_view(&self) -> Seq<u8> {
        self.buffer@
    }

    pub closed spec fn lfb_view(&self) -> LFB {
        self.lfb
    }

    pub closed spec fn target_view(&self) -> LFB {
        self.target_lfb
    }

    /// A zero-filled buffer as large as `lfb`, seen as a frame buffer of the
    /// same pitch, width, height and depth; `lfb` becomes the target.
    pub fn new(lfb: LFB) -> (r: Self)
        requires
            lfb.size() <= usize::MAX,
        ensures
            r.target_view() == lfb,
            r.buffer_view() == Seq::new(lfb.size() as nat, |i: int| 0u8),
            r.lfb_view().pitch == lfb.pitch,
            r.lfb_view().width == lfb.width,
            r.lfb_view().height == lfb.height,
            r.lfb_view().bpp == lfb.bpp,
    {
        let size: usize = lfb.height as usize * lfb.pitch as usize;
        let mut buffer: Vec<u8> = Vec::new();
        let mut i: usize = 0;
        while i < size
            invariant
                i <= size,
                buffer@ == Seq::new(i as nat, |j: int| 0u8),
            decreases size - i,
        {
            buffer.push(0);
            assert(buffer@ =~= Seq::new((i + 1) as nat, |j: int| 0u8));
            i += 1;
        }
        let address = buffer_address(&buffer);
        Self {
            buffer,
            lfb: LFB::new(address, lfb.pitch, lfb.width, lfb.height, lfb.bpp),
            target_lfb: lfb,
        }
    }

    /// The frame buffer in memory, to draw into.
    pub fn lfb(&mut self) -> (r: &mut LFB)
        ensures
            *r == old(self).lfb_view(),
            final(self).lfb_view() == *final(r),
            final(self).target_view() == old(self).target_view(),
            final(self).buffer_view() == old(self).buffer_view(),
    {
        &mut self.lfb
    }

    /// The target frame buffer, to draw on the screen directly.
    pub fn direct_lfb(&mut self) -> (r: &mut LFB)
        ensures
            *r == old(self).target_view(),
            final(self).target_view() == *final(r),
            final(self).lfb_view() == old(self).lfb_view(),
            final(self).buffer_view() == old(self).buffer_view(),
    {
        &mut self.target_lfb
    }

    /// The bytes drawn so far, which a flush copies to the target.
    pub fn buffer(&self) -> (r: &Vec<u8>)
        ensures
            r@ == self.buffer_view(),
    {
        &self.buffer
    }
}

} // verus!
