//! The pulse-train backend: symbols become pulse descriptors for a pulse generator
//! that emits a high and a low level of programmable length per descriptor.
//!
//! The generator's memory is smaller than a frame, so a frame is a sequence of
//! blocks, one per pixel: 24 data pulses and an end marker. Blocks are handed to
//! the peripheral one at a time.

use vstd::prelude::*;
use crate::error::Error;
use crate::pixel::{Pixel, PixelBuffer};
use crate::symbol::{
    encode_byte, lemma_encode_injective, symbols_of, Symbol, LOW_NS, ONE_HIGH_NS, ZERO_HIGH_NS,
};

verus! {

/// Largest length, in ticks, that one half of a pulse descriptor can hold.
pub const MAX_LENGTH: u16 = 0x7FFF;

/// The descriptor that ends a transmission: both lengths zero.
pub const END_MARKER: u32 = 0;

/// Descriptors in one pixel's block: three channels of eight, then the end marker.
pub const CODES_PER_PIXEL: usize = 25;

/// Nanoseconds by which a pulse may miss its nominal length.
pub const TOLERANCE_NS: u32 = 150;

/// Clock rate, in MHz, at which [`pixel_to_pulsecodes`] counts its ticks.
pub const DEFAULT_CLOCK_MHZ: u32 = 80;

/// An electrical level of the output line.
#[derive(Clone, Copy, Debug, PartialEq, Eq, Structural)]
pub enum Level {
    Low,
    High,
}

impl Level {
    /// The level as one bit: 1 for high.
    pub open spec fn spec_bit(self) -> int {
        match self {
            Level::Low => 0,
            Level::High => 1,
        }
    }
}

/// A pulse descriptor as a number: the first length in bits 0 to 14, the first
/// level in bit 15, the second length in bits 16 to 30, the second level in bit 31.
pub open spec fn spec_pulse_code(level1: Level, length1: u16, level2: Level, length2: u16) -> int {
    length1 as int + 0x8000 * level1.spec_bit() + 0x1_0000 * length2 as int + 0x8000_0000
        * level2.spec_bit()
}

/// Packs two levels and their lengths in ticks into one pulse descriptor.
pub fn pulse_code(level1: Level, length1: u16, level2: Level, length2: u16) -> (code: u32)
    requires
        length1 <= MAX_LENGTH,
        length2 <= MAX_LENGTH,
    ensures
        code == spec_pulse_code(level1, length1, level2, length2),
{
    let l1: u32 = match level1 {
        Level::Low => 0,
        Level::High => 1,
    };
    let l2: u32 = match level2 {
        Level::Low => 0,
        Level::High => 1,
    };
    assert((l1 << 15 | l2 << 31 | (length1 as u32) | (length2 as u32) << 16) == length1 as u32
        + 0x8000 * l1 + 0x1_0000 * (length2 as u32) + 0x8000_0000 * l2) by (bit_vector)
        requires
            l1 <= 1,
            l2 <= 1,
            length1 <= 0x7FFFu16,
            length2 <= 0x7FFFu16,
    ;
    l1 << 15 | l2 << 31 | (length1 as u32) | (length2 as u32) << 16
}

/// The number of whole ticks of a `clock_mhz` clock in `ns` nanoseconds.
pub open spec fn spec_ticks(ns: u32, clock_mhz: u32) -> int {
    ns as int * clock_mhz as int / 1000
}

/// Whether `ns` nanoseconds, counted in whole ticks of a `clock_mhz` clock, come
/// out no more than the protocol's tolerance too short. Both sides are scaled by
/// the clock rate, so that nothing is rounded twice.
pub open spec fn within_tolerance(ns: u32, clock_mhz: u32) -> bool {
    ns * clock_mhz - 1000 * spec_ticks(ns, clock_mhz) <= TOLERANCE_NS * clock_mhz
}

/// The clock rates the protocol can be timed with: every pulse lasts at least
/// one tick, fits a descriptor, and is within tolerance of its nominal length.
pub open spec fn clock_supported(clock_mhz: u32) -> bool {
    &&& 1 <= spec_ticks(ZERO_HIGH_NS, clock_mhz)
    &&& 1 <= spec_ticks(LOW_NS, clock_mhz)
    &&& spec_ticks(ONE_HIGH_NS, clock_mhz) <= MAX_LENGTH
    &&& spec_ticks(LOW_NS, clock_mhz) <= MAX_LENGTH
    &&& within_tolerance(ZERO_HIGH_NS, clock_mhz)
    &&& within_tolerance(ONE_HIGH_NS, clock_mhz)
    &&& within_tolerance(LOW_NS, clock_mhz)
}

/// The slowest supported clock, in MHz.
pub const MIN_CLOCK_MHZ: u32 = 5;

/// The fastest supported clock, in MHz.
pub const MAX_CLOCK_MHZ: u32 = 46811;

/// The supported clocks are those from 5 MHz to 46811 MHz.
pub proof fn lemma_supported_clocks(clock_mhz: u32)
    ensures
        clock_supported(clock_mhz) <==> MIN_CLOCK_MHZ <= clock_mhz <= MAX_CLOCK_MHZ,
{
    let m = clock_mhz as int;
    assert(spec_ticks(ZERO_HIGH_NS, clock_mhz) == 350 * m / 1000);
    assert(spec_ticks(ONE_HIGH_NS, clock_mhz) == 700 * m / 1000);
    assert(spec_ticks(LOW_NS, clock_mhz) == 600 * m / 1000);
    assert(within_tolerance(ZERO_HIGH_NS, clock_mhz) <==> 350 * m - 1000 * (350 * m / 1000) <= 150
        * m);
    assert(within_tolerance(ONE_HIGH_NS, clock_mhz) <==> 700 * m - 1000 * (700 * m / 1000) <= 150
        * m);
    assert(within_tolerance(LOW_NS, clock_mhz) <==> 600 * m - 1000 * (600 * m / 1000) <= 150 * m);
}

/// The descriptor of `symbol` at a clock of `clock_mhz`: high for the symbol's
/// high time, then low for its low time.
pub open spec fn spec_symbol_code(symbol: Symbol, clock_mhz: u32) -> int {
    spec_pulse_code(
        Level::High,
        spec_ticks(symbol.spec_high_ns(), clock_mhz) as u16,
        Level::Low,
        spec_ticks(symbol.spec_low_ns(), clock_mhz) as u16,
    )
}

/// The eight descriptors of one channel byte, most significant bit first.
pub open spec fn pulse_codes(byte: u8, clock_mhz: u32) -> Seq<u32> {
    Seq::new(8, |i: int| spec_symbol_code(symbols_of(byte)[i], clock_mhz) as u32)
}

/// One pixel's block: green, red, blue, end marker.
pub open spec fn pulse_block(pixel: Pixel, clock_mhz: u32) -> Seq<u32> {
    pulse_codes(pixel.g, clock_mhz) + pulse_codes(pixel.r, clock_mhz) + pulse_codes(
        pixel.b,
        clock_mhz,
    ) + seq![END_MARKER]
}

/// A block that holds nothing but end markers.
pub open spec fn blank_block() -> Seq<u32> {
    Seq::new(25, |j: int| END_MARKER)
}

/// A whole frame: one block per pixel, in strip order.
pub open spec fn pulse_frame(pixels: Seq<Pixel>, clock_mhz: u32) -> Seq<Seq<u32>> {
    Seq::new(pixels.len(), |i: int| pulse_block(pixels[i], clock_mhz))
}

/// The tick rate of the pulse generator, checked against the protocol's timing.
#[derive(Clone, Copy, Debug)]
pub struct PulseClock {
    mhz: u32,
}

impl PulseClock {
    /// The clock rate in MHz.
    pub closed spec fn spec_mhz(&self) -> u32 {
        self.mhz
    }

    /// Every clock is one the protocol can be timed with.
    #[verifier::type_invariant]
    closed spec fn supported(&self) -> bool {
        clock_supported(self.mhz)
    }

    /// Accepts `clock_mhz` if the protocol's pulses can be counted in its ticks.
    pub fn new(clock_mhz: u32) -> (r: Result<PulseClock, Error>)
        ensures
            clock_supported(clock_mhz) ==> r is Ok && r->Ok_0.spec_mhz() == clock_mhz,
            !clock_supported(clock_mhz) ==> r == Err::<PulseClock, Error>(Error::UnsupportedClock),
    {
        proof {
            lemma_supported_clocks(clock_mhz);
        }
        if MIN_CLOCK_MHZ <= clock_mhz && clock_mhz <= MAX_CLOCK_MHZ {
            Ok(PulseClock { mhz: clock_mhz })
        } else {
            Err(Error::UnsupportedClock)
        }
    }

    /// The clock rate in MHz, which is always a supported one.
    #[verifier::when_used_as_spec(spec_mhz)]
    pub fn mhz(&self) -> (m: u32)
        ensures
            m == self.spec_mhz(),
            clock_supported(m),
    {
        proof {
            use_type_invariant(self);
        }
        self.mhz
    }

    /// Converts a duration in nanoseconds to whole ticks, rounding down.
    pub fn ticks(&self, ns: u32) -> (t: u64)
        ensures
            t == spec_ticks(ns, self.spec_mhz()),
    {
        assert(ns * self.mhz <= 0xFFFF_FFFF * 0xFFFF_FFFF) by (nonlinear_arith)
            requires
                ns <= 0xFFFF_FFFF,
                self.mhz <= 0xFFFF_FFFF,
        ;
        (ns as u64) * (self.mhz as u64) / 1000
    }

    /// The pulse descriptor of one symbol: high for the symbol's high time, then
    /// low for its low time, both in ticks.
    pub fn symbol_code(&self, symbol: Symbol) -> (code: u32)
        ensures
            code == spec_symbol_code(symbol, self.spec_mhz()),
    {
        let high = self.ticks(symbol.high_ns());
        let low = self.ticks(symbol.low_ns());
        proof {
            use_type_invariant(self);
            lemma_ticks_fit(self.spec_mhz());
        }
        pulse_code(Level::High, high as u16, Level::Low, low as u16)
    }

    /// The eight pulse descriptors of one channel byte, most significant bit first.
    pub fn encode_channel(&self, byte: u8) -> (codes: [u32; 8])
        ensures
            codes@ == pulse_codes(byte, self.spec_mhz()),
    {
        let symbols = encode_byte(byte);
        let codes = [
            self.symbol_code(symbols[0]),
            self.symbol_code(symbols[1]),
            self.symbol_code(symbols[2]),
            self.symbol_code(symbols[3]),
            self.symbol_code(symbols[4]),
            self.symbol_code(symbols[5]),
            self.symbol_code(symbols[6]),
            self.symbol_code(symbols[7]),
        ];
        proof {
            let want = pulse_codes(byte, self.spec_mhz());
            assert forall|i: int| 0 <= i < 8 implies codes@[i] == want[i] by {
                assert(symbols@[i] == symbols_of(byte)[i]);
            }
            assert(codes@ =~= want);
        }
        codes
    }

    /// One pixel's block of descriptors: green, then red, then blue, then the end
    /// marker.
    pub fn encode_pixel(&self, pixel: Pixel) -> (block: [u32; 25])
        ensures
            block@ == pulse_block(pixel, self.spec_mhz()),
    {
        let g = self.encode_channel(pixel.g);
        let r = self.encode_channel(pixel.r);
        let b = self.encode_channel(pixel.b);
        let mut block = [END_MARKER; 25];
        let mut i: usize = 0;
        while i < 8
            invariant
                i <= 8,
                block@[24] == END_MARKER,
                forall|j: int| 0 <= j < i ==> block@[j] == g@[j],
                forall|j: int| 0 <= j < i ==> block@[8 + j] == r@[j],
                forall|j: int| 0 <= j < i ==> block@[16 + j] == b@[j],
            decreases 8 - i,
        {
            block[i] = g[i];
            block[8 + i] = r[i];
            block[16 + i] = b[i];
            i = i + 1;
        }
        proof {
            lemma_block_of_channels(block@, g@, r@, b@);
        }
        block
    }
}

/// A sequence that holds three channels of eight descriptors and an end marker,
/// in that order, is their concatenation.
proof fn lemma_block_of_channels(block: Seq<u32>, g: Seq<u32>, r: Seq<u32>, b: Seq<u32>)
    requires
        block.len() == 25,
        g.len() == 8,
        r.len() == 8,
        b.len() == 8,
        forall|j: int| 0 <= j < 8 ==> block[j] == g[j],
        forall|j: int| 0 <= j < 8 ==> block[8 + j] == r[j],
        forall|j: int| 0 <= j < 8 ==> block[16 + j] == b[j],
        block[24] == END_MARKER,
    ensures
        block == g + r + b + seq![END_MARKER],
{
    let want = g + r + b + seq![END_MARKER];
    assert forall|j: int| 0 <= j < 25 implies block[j] == want[j] by {
        if j < 8 {
        } else if j < 16 {
            assert(block[8 + (j - 8)] == r[j - 8]);
        } else if j < 24 {
            assert(block[16 + (j - 16)] == b[j - 16]);
        } else {
        }
    }
    assert(block =~= want);
}

/// The encoded size depends on the number of pixels alone: one block of 25
/// descriptors per pixel, 25 times the number of pixels in all.
pub proof fn lemma_pulse_frame_size(pixels: Seq<Pixel>, clock_mhz: u32)
    ensures
        pulse_frame(pixels, clock_mhz).len() == pixels.len(),
        forall|i: int|
            0 <= i < pixels.len() ==> (#[trigger] pulse_frame(pixels, clock_mhz)[i]).len() == 25,
        pulse_frame(pixels, clock_mhz).flatten().len() == 25 * pixels.len(),
{
    let frame = pulse_frame(pixels, clock_mhz);
    lemma_flatten_blocks(frame);
}

/// Blocks of 25 descriptors, laid end to end, are 25 times as many descriptors.
proof fn lemma_flatten_blocks(blocks: Seq<Seq<u32>>)
    requires
        forall|i: int| 0 <= i < blocks.len() ==> (#[trigger] blocks[i]).len() == 25,
    ensures
        blocks.flatten().len() == 25 * blocks.len(),
    decreases blocks.len(),
{
    if blocks.len() > 0 {
        lemma_flatten_blocks(blocks.drop_first());
    }
}

/// Every block of a frame holds the pixel's green byte first, then red, then
/// blue, then the end marker, whatever the colours are.
pub proof fn lemma_pulse_channel_order(pixels: Seq<Pixel>, clock_mhz: u32, i: int)
    requires
        0 <= i < pixels.len(),
    ensures
        pulse_frame(pixels, clock_mhz)[i].len() == 25,
        pulse_frame(pixels, clock_mhz)[i].subrange(0, 8) == pulse_codes(pixels[i].g, clock_mhz),
        pulse_frame(pixels, clock_mhz)[i].subrange(8, 16) == pulse_codes(pixels[i].r, clock_mhz),
        pulse_frame(pixels, clock_mhz)[i].subrange(16, 24) == pulse_codes(pixels[i].b, clock_mhz),
        pulse_frame(pixels, clock_mhz)[i][24] == END_MARKER,
{
    let block = pulse_frame(pixels, clock_mhz)[i];
    assert(block.subrange(0, 8) =~= pulse_codes(pixels[i].g, clock_mhz));
    assert(block.subrange(8, 16) =~= pulse_codes(pixels[i].r, clock_mhz));
    assert(block.subrange(16, 24) =~= pulse_codes(pixels[i].b, clock_mhz));
}

/// At a supported clock the high pulse of a one counts more ticks than that of
/// a zero, and every pulse fits a descriptor.
pub proof fn lemma_ticks_fit(clock_mhz: u32)
    requires
        clock_supported(clock_mhz),
    ensures
        1 <= spec_ticks(ZERO_HIGH_NS, clock_mhz) < spec_ticks(ONE_HIGH_NS, clock_mhz)
            <= MAX_LENGTH,
        1 <= spec_ticks(LOW_NS, clock_mhz) <= MAX_LENGTH,
{
    lemma_supported_clocks(clock_mhz);
    let m = clock_mhz as int;
    assert(spec_ticks(ZERO_HIGH_NS, clock_mhz) == 350 * m / 1000);
    assert(spec_ticks(ONE_HIGH_NS, clock_mhz) == 700 * m / 1000);
}

/// At a supported clock a one and a zero never share a descriptor: the high time
/// of a one counts more ticks than that of a zero.
pub proof fn lemma_symbol_codes_differ(clock_mhz: u32)
    requires
        clock_supported(clock_mhz),
    ensures
        spec_symbol_code(Symbol::One, clock_mhz) > spec_symbol_code(Symbol::Zero, clock_mhz),
        0 < spec_symbol_code(Symbol::Zero, clock_mhz),
        spec_symbol_code(Symbol::One, clock_mhz) <= u32::MAX,
{
    lemma_ticks_fit(clock_mhz);
    assert(Symbol::One.spec_high_ns() == ONE_HIGH_NS);
    assert(Symbol::Zero.spec_high_ns() == ZERO_HIGH_NS);
}

/// Descriptors lose nothing of the byte: at a supported clock two bytes with the
/// same descriptors are the same byte.
pub proof fn lemma_pulse_codes_injective(a: u8, b: u8, clock_mhz: u32)
    requires
        clock_supported(clock_mhz),
        pulse_codes(a, clock_mhz) == pulse_codes(b, clock_mhz),
    ensures
        a == b,
{
    lemma_symbol_codes_differ(clock_mhz);
    assert forall|i: int| 0 <= i < 8 implies symbols_of(a)[i] == symbols_of(b)[i] by {
        let sa = symbols_of(a)[i];
        let sb = symbols_of(b)[i];
        assert(pulse_codes(a, clock_mhz)[i] == spec_symbol_code(sa, clock_mhz) as u32);
        assert(pulse_codes(b, clock_mhz)[i] == spec_symbol_code(sb, clock_mhz) as u32);
        assert(sa == Symbol::Zero || sa == Symbol::One);
        assert(sb == Symbol::Zero || sb == Symbol::One);
    }
    assert(symbols_of(a) =~= symbols_of(b));
    lemma_encode_injective(a, b);
}

/// Each field of a descriptor can be read back from the number.
pub proof fn lemma_pulse_code_fields(level1: Level, length1: u16, level2: Level, length2: u16)
    requires
        length1 <= MAX_LENGTH,
        length2 <= MAX_LENGTH,
    ensures
        0 <= spec_pulse_code(level1, length1, level2, length2) <= u32::MAX,
        spec_pulse_code(level1, length1, level2, length2) % 0x8000 == length1,
        spec_pulse_code(level1, length1, level2, length2) / 0x8000 % 2 == level1.spec_bit(),
        spec_pulse_code(level1, length1, level2, length2) / 0x1_0000 % 0x8000 == length2,
        spec_pulse_code(level1, length1, level2, length2) / 0x8000_0000 == level2.spec_bit(),
{
}

/// The eight pulse descriptors of one channel byte at the default clock of 80 MHz:
/// 28 ticks high for a zero, 56 for a one, and 48 ticks low after either.
pub fn pixel_to_pulsecodes(byte: u8) -> (codes: [u32; 8])
    ensures
        codes@ == pulse_codes(byte, DEFAULT_CLOCK_MHZ),
{
    proof {
        lemma_supported_clocks(DEFAULT_CLOCK_MHZ);
    }
    let clock = PulseClock { mhz: DEFAULT_CLOCK_MHZ };
    clock.encode_channel(byte)
}

/// What encoding `pixels` at a clock of `clock_mhz` into a frame that held
/// `before` gives: the outcome and the frame's contents afterwards.
pub open spec fn encoded(
    before: Seq<Seq<u32>>,
    pixels: Seq<Pixel>,
    clock_mhz: u32,
    outcome: Result<(), Error>,
    after: Seq<Seq<u32>>,
) -> bool {
    if before.len() == pixels.len() {
        outcome == Ok::<(), Error>(()) && after == pulse_frame(pixels, clock_mhz)
    } else {
        outcome == Err::<(), Error>(Error::SizeMismatch) && after == before
    }
}

/// Encoding never changes the number of a frame's blocks.
pub proof fn lemma_encoded_keeps_size(
    before: Seq<Seq<u32>>,
    pixels: Seq<Pixel>,
    clock_mhz: u32,
    outcome: Result<(), Error>,
    after: Seq<Seq<u32>>,
)
    requires
        encoded(before, pixels, clock_mhz, outcome, after),
    ensures
        after.len() == before.len(),
{
}

/// Encoding is repeatable: the same pixels at the same clock give the same
/// descriptors in any two frames of the right size, whatever the frames held
/// before.
pub proof fn lemma_encoded_repeatable(
    pixels: Seq<Pixel>,
    clock_mhz: u32,
    before1: Seq<Seq<u32>>,
    outcome1: Result<(), Error>,
    after1: Seq<Seq<u32>>,
    before2: Seq<Seq<u32>>,
    outcome2: Result<(), Error>,
    after2: Seq<Seq<u32>>,
)
    requires
        encoded(before1, pixels, clock_mhz, outcome1, after1),
        encoded(before2, pixels, clock_mhz, outcome2, after2),
        before1.len() == before2.len(),
    ensures
        outcome1 == outcome2,
        before1.len() == pixels.len() ==> after1 == after2,
{
}

/// The encoded form of a frame for the pulse generator: one block per pixel. It is
/// made once for a strip and overwritten for every frame.
pub struct PulseFrame {
    blocks: Vec<[u32; 25]>,
}

impl View for PulseFrame {
    type V = Seq<Seq<u32>>;

    closed spec fn view(&self) -> Seq<Seq<u32>> {
        Seq::new(self.blocks@.len(), |i: int| self.blocks@[i]@)
    }
}

impl PulseFrame {
    /// A frame for `num_pixels` pixels in which every descriptor is the end marker.
    pub fn new(num_pixels: usize) -> (frame: PulseFrame)
        ensures
            frame@.len() == num_pixels,
            forall|i: int| 0 <= i < num_pixels ==> frame@[i] == blank_block(),
    {
        let mut blocks: Vec<[u32; 25]> = Vec::new();
        let mut i: usize = 0;
        while i < num_pixels
            invariant
                i <= num_pixels,
                blocks@.len() == i,
                forall|k: int| 0 <= k < i ==> (#[trigger] blocks@[k])@ == blank_block(),
            decreases num_pixels - i,
        {
            let block = [END_MARKER; 25];
            assert(block@ =~= blank_block());
            blocks.push(block);
            i = i + 1;
        }
        PulseFrame { blocks }
    }

    /// The number of pixels the frame was made for.
    pub fn num_pixels(&self) -> (n: usize)
        ensures
            n == self@.len(),
    {
        self.blocks.len()
    }

    /// The block of pixel `index`, as it is handed to the peripheral.
    pub fn block(&self, index: usize) -> (block: &[u32; 25])
        requires
            index < self@.len(),
        ensures
            block@ == self@[index as int],
    {
        &self.blocks[index]
    }

    /// Encodes `pixels` into the frame. What the frame held before plays no
    /// part. The frame's size never changes: pixels of another number are
    /// refused and the frame is left as it was.
    pub fn encode(&mut self, clock: &PulseClock, pixels: &PixelBuffer) -> (r: Result<(), Error>)
        ensures
            encoded(old(self)@, pixels@, clock.spec_mhz(), r, final(self)@),
    {
        let n = self.blocks.len();
        if pixels.len() != n {
            return Err(Error::SizeMismatch);
        }
        let mut i: usize = 0;
        while i < n
            invariant
                n == pixels@.len(),
                self.blocks@.len() == n,
                i <= n,
                forall|k: int|
                    0 <= k < i ==> (#[trigger] self.blocks@[k])@ == pulse_block(
                        pixels@[k],
                        clock.spec_mhz(),
                    ),
            decreases n - i,
        {
            let block = clock.encode_pixel(pixels.get(i));
            self.blocks.set(i, block);
            i = i + 1;
        }
        assert(self@ =~= pulse_frame(pixels@, clock.spec_mhz()));
        Ok(())
    }
}

} // verus!
