//! The pixel store: RGB pixels and the fixed-length buffer that holds a strip's colours.

use vstd::prelude::*;

verus! {

/// One LED's colour: three independent 8-bit channel intensities.
#[derive(Clone, Copy, Debug, PartialEq, Eq, Structural)]
pub struct Pixel {
    pub r: u8,
    pub g: u8,
    pub b: u8,
}

impl Pixel {
    /// The pixel with all channels off.
    pub open spec fn spec_black() -> Pixel {
        Pixel { r: 0, g: 0, b: 0 }
    }

    /// The pixel with all channels off.
    #[verifier::when_used_as_spec(spec_black)]
    pub fn black() -> (p: Pixel)
        ensures
            p == Pixel::spec_black(),
    {
        Pixel { r: 0, g: 0, b: 0 }
    }

    /// The dim colour that one random word stands for: the low three bits of its
    /// first three bytes, in the order red, green, blue.
    pub open spec fn spec_from_random(word: u32) -> Pixel {
        Pixel {
            r: (word as int % 8) as u8,
            g: (word as int / 0x100 % 8) as u8,
            b: (word as int / 0x1_0000 % 8) as u8,
        }
    }

    /// Derives a dim colour from one random word. Each channel takes three bits of
    /// its own byte of the word, so every intensity is below 8.
    #[verifier::when_used_as_spec(spec_from_random)]
    pub fn from_random(word: u32) -> (p: Pixel)
        ensures
            p == Pixel::spec_from_random(word),
            p.r < 8 && p.g < 8 && p.b < 8,
    {
        let r: u8 = (word as u8) & 0x7;
        let g: u8 = ((word >> 8) as u8) & 0x7;
        let b: u8 = ((word >> 16) as u8) & 0x7;
        assert((word as u8) & 0x7 == word % 8) by (bit_vector);
        assert(((word >> 8) as u8) & 0x7 == word / 0x100 % 8) by (bit_vector);
        assert(((word >> 16) as u8) & 0x7 == word / 0x1_0000 % 8) by (bit_vector);
        Pixel { r, g, b }
    }
}

/// A strip's colours: an ordered sequence of pixels whose length is fixed when the
/// buffer is made. Pixels are overwritten in place.
pub struct PixelBuffer {
    pixels: Vec<Pixel>,
}

impl View for PixelBuffer {
    type V = Seq<Pixel>;

    closed spec fn view(&self) -> Seq<Pixel> {
        self.pixels@
    }
}

impl PixelBuffer {
    /// A buffer of `num_pixels` black pixels.
    pub fn new(num_pixels: usize) -> (buf: PixelBuffer)
        ensures
            buf@.len() == num_pixels,
            forall|i: int| 0 <= i < num_pixels ==> buf@[i] == Pixel::spec_black(),
    {
        let mut pixels: Vec<Pixel> = Vec::new();
        let mut i: usize = 0;
        while i < num_pixels
            invariant
                i <= num_pixels,
                pixels@.len() == i,
                forall|k: int| 0 <= k < i ==> pixels@[k] == Pixel::spec_black(),
            decreases num_pixels - i,
        {
            pixels.push(Pixel::black());
            i = i + 1;
        }
        PixelBuffer { pixels }
    }

    /// The number of pixels, which never changes.
    pub fn len(&self) -> (n: usize)
        ensures
            n == self@.len(),
    {
        self.pixels.len()
    }

    /// Whether the strip has no pixels.
    pub fn is_empty(&self) -> (e: bool)
        ensures
            e == (self@.len() == 0),
    {
        self.pixels.len() == 0
    }

    /// The pixel at `index`.
    pub fn get(&self, index: usize) -> (p: Pixel)
        requires
            index < self@.len(),
        ensures
            p == self@[index as int],
    {
        self.pixels[index]
    }

    /// Overwrites the pixel at `index`; every other pixel and the length stay.
    pub fn set(&mut self, index: usize, pixel: Pixel)
        requires
            index < old(self)@.len(),
        ensures
            final(self)@ == old(self)@.update(index as int, pixel),
    {
        self.pixels.set(index, pixel);
    }

    /// Gives every pixel the colour that the random word at its position stands
    /// for. Words beyond the strip's length are ignored; pixels beyond the words
    /// keep their colour.
    pub fn randomize(&mut self, words: &Vec<u32>)
        ensures
            final(self)@.len() == old(self)@.len(),
            forall|i: int|
                0 <= i < old(self)@.len() ==> final(self)@[i] == (if i < words@.len() {
                    Pixel::spec_from_random(words@[i])
                } else {
                    old(self)@[i]
                }),
    {
        let n = self.pixels.len();
        let mut i: usize = 0;
        while i < n && i < words.len()
            invariant
                n == old(self)@.len(),
                self.pixels@.len() == n,
                i <= n,
                i <= words@.len(),
                forall|k: int|
                    0 <= k < n ==> self.pixels@[k] == (if k < i {
                        Pixel::spec_from_random(words@[k])
                    } else {
                        old(self)@[k]
                    }),
            decreases n - i,
        {
            self.pixels.set(i, Pixel::from_random(words[i]));
            i = i + 1;
        }
    }
}

} // verus!
