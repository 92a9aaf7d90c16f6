use vstd::prelude::*;

verus! {

/// How a finished frame is copied to the screen.
#[derive(PartialEq, Eq, Structural, Clone, Copy, Debug)]
pub enum Blitter {
    /// Byte by byte, the way that needs no vector registers.
    Basic,
}

/// Copies finished frames to the screen with the best copy the machine
/// allows.
pub struct IntelligentRenderer {
    blitter: Blitter,
}

/// `dst` with its first `len` bytes taken from `src`.
pub open spec fn blitted(src: Seq<u8>, dst: Seq<u8>, len: int) -> Seq<u8> {
    src.take(len) + dst.skip(len)
}

/// Copies the first `len` bytes of `src` over those of `dst`.
pub fn blit_basic(src: &[u8], dst: &mut [u8], len: usize)
    requires
        len <= src@.len(),
        len <= old(dst)@.len(),
    ensures
        final(dst)@ == blitted(src@, old(dst)@, len as int),
{
    let mut i: usize = 0;
    while i < len
        invariant
            i <= len,
            len <= src@.len(),
            dst@.len() == old(dst)@.len(),
            len <= dst@.len(),
            dst@ == blitted(src@, old(dst)@, i as int),
        decreases len - i,
    {
        dst[i] = src[i];
        i = i + 1;
        assert(dst@ =~= blitted(src@, old(dst)@, i as int));
    }
}

impl IntelligentRenderer {
    pub closed spec fn kind(self) -> Blitter {
        self.blitter
    }

    /// The renderer for this machine: the byte copy, since the vector
    /// registers are off on a bare-metal target.
    pub fn init() -> (r: Self)
        ensures
            r.kind() == Blitter::Basic,
    {
        IntelligentRenderer { blitter: Blitter::Basic }
    }

    /// Copies the first `size_bytes` bytes of a finished frame to the screen.
    pub fn draw_dirty_rect(&self, src: &[u8], dst: &mut [u8], size_bytes: usize)
        requires
            size_bytes <= src@.len(),
            size_bytes <= old(dst)@.len(),
        ensures
            final(dst)@ == blitted(src@, old(dst)@, size_bytes as int),
    {
        match self.blitter {
            Blitter::Basic => blit_basic(src, dst, size_bytes),
        }
    }
}

} // verus!
