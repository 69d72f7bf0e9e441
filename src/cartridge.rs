//! A program image as it comes from a cartridge file.
use vstd::prelude::*;

verus! {

/// The largest program image: the memory from 0x200 to the end.
pub const ROM_SIZE: usize = 3584;

/// The first `ROM_SIZE` bytes of a cartridge, zero-padded, and how many of
/// them the cartridge supplied.
pub struct CartridgeDriver {
    pub rom: [u8; ROM_SIZE],
    pub size: usize,
}

impl CartridgeDriver {
    /// The cartridge that holds `image`, cut to `ROM_SIZE` bytes.
    pub fn from_image(image: &[u8]) -> (c: CartridgeDriver)
        ensures
            c.size == if image@.len() < ROM_SIZE { image@.len() } else { ROM_SIZE as nat },
            forall|k: int|
                0 <= k < ROM_SIZE ==> #[trigger] c.rom@[k] == if k < c.size {
                    image@[k]
                } else {
                    0u8
                },
    {
        let size = if image.len() < ROM_SIZE { image.len() } else { ROM_SIZE };
        let mut rom = [0u8; ROM_SIZE];
        let mut k: usize = 0;
        while k < size
            invariant
                k <= size <= ROM_SIZE,
                size <= image@.len(),
                forall|j: int|
                    0 <= j < ROM_SIZE ==> #[trigger] rom@[j] == if j < k {
                        image@[j]
                    } else {
                        0u8
                    },
            decreases size - k,
        {
            rom[k] = image[k];
            k += 1;
        }
        CartridgeDriver { rom, size }
    }
}

} // verus!
