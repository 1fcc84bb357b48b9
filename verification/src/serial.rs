//! The oversampled-serial backend: symbols become four-bit duty patterns that a
//! synchronous serial engine clocks out at one bit per protocol time unit.
//!
//! A whole frame is one flat byte buffer, sent in a single burst, so nothing can
//! interrupt the waveform between two pixels.

use vstd::prelude::*;
use crate::error::Error;
use crate::pixel::{Pixel, PixelBuffer};
use crate::symbol::{encode_byte, lemma_encode_injective, symbols_of, Symbol};

verus! {

/// The pattern of a zero bit: one time unit high, three low.
pub const ZERO_PULSE: u8 = 0b1000;

/// The pattern of a one bit: two time units high, two low.
pub const ONE_PULSE: u8 = 0b1100;

/// Encoded bytes per pixel: three channels of four bytes.
pub const BYTES_PER_PIXEL: usize = 12;

/// Serial clock in kHz at which one clocked bit lasts about one protocol time unit.
pub const SERIAL_CLOCK_KHZ: u32 = 2857;

/// Number of zero bytes sent once at startup to bring the line to its idle level.
pub const RESET_BURST_LEN: usize = 1;

/// Microseconds to hold the line idle after the startup burst, so that the strip
/// drops whatever it took for the start of a frame.
pub const SETTLE_MICROS: u64 = 100;

/// The four-bit pattern of a symbol.
pub open spec fn spec_nibble(symbol: Symbol) -> u8 {
    match symbol {
        Symbol::Zero => ZERO_PULSE,
        Symbol::One => ONE_PULSE,
    }
}

/// The four-bit pattern of a symbol.
#[verifier::when_used_as_spec(spec_nibble)]
pub fn nibble(symbol: Symbol) -> (n: u8)
    ensures
        n == spec_nibble(symbol),
{
    match symbol {
        Symbol::Zero => ZERO_PULSE,
        Symbol::One => ONE_PULSE,
    }
}

/// The number of one bits at the head of a four-bit pattern: the time units for
/// which the line is high.
pub open spec fn high_units(pattern: u8) -> int {
    if pattern >= 0b1111 {
        4
    } else if pattern >= 0b1110 {
        3
    } else if pattern >= 0b1100 {
        2
    } else if pattern >= 0b1000 {
        1
    } else {
        0
    }
}

/// Nanoseconds that one clocked bit lasts at a serial clock of `clock_khz`.
pub open spec fn bit_ns(clock_khz: u32) -> int
    recommends
        clock_khz > 0,
{
    1_000_000int / clock_khz as int
}

/// At the serial clock each pattern holds the line high for the symbol's high
/// time, and never begins low.
pub proof fn lemma_pattern_timing(symbol: Symbol)
    ensures
        high_units(spec_nibble(symbol)) * bit_ns(SERIAL_CLOCK_KHZ) == symbol.spec_high_ns(),
        spec_nibble(symbol) < 16,
{
}

/// Two symbols in one byte: the first in the high half, the second in the low half.
pub open spec fn spec_pack(first: Symbol, second: Symbol) -> u8 {
    (16 * spec_nibble(first) + spec_nibble(second)) as u8
}

/// Packs two symbols into one byte, the first in the high half.
#[verifier::when_used_as_spec(spec_pack)]
pub fn pack(first: Symbol, second: Symbol) -> (byte: u8)
    ensures
        byte == spec_pack(first, second),
{
    let hi = nibble(first);
    let lo = nibble(second);
    assert(hi << 4 | lo == 16 * hi + lo) by (bit_vector)
        requires
            hi < 16,
            lo < 16,
    ;
    hi << 4 | lo
}

/// The four bytes of one channel byte, most significant bit pair first.
pub open spec fn serial_bytes(byte: u8) -> Seq<u8> {
    Seq::new(4, |k: int| spec_pack(symbols_of(byte)[2 * k], symbols_of(byte)[2 * k + 1]))
}

/// One pixel's twelve bytes: green, red, blue.
pub open spec fn serial_pixel(pixel: Pixel) -> Seq<u8> {
    serial_bytes(pixel.g) + serial_bytes(pixel.r) + serial_bytes(pixel.b)
}

/// A whole frame: every pixel's twelve bytes, in strip order.
pub open spec fn serial_frame(pixels: Seq<Pixel>) -> Seq<u8> {
    Seq::new(12 * pixels.len(), |k: int| serial_pixel(pixels[k / 12])[k % 12])
}

/// The four serial bytes of one channel byte, most significant bit pair first.
pub fn pixel_to_pulsecodes(byte: u8) -> (bytes: [u8; 4])
    ensures
        bytes@ == serial_bytes(byte),
{
    let symbols = encode_byte(byte);
    let bytes = [
        pack(symbols[0], symbols[1]),
        pack(symbols[2], symbols[3]),
        pack(symbols[4], symbols[5]),
        pack(symbols[6], symbols[7]),
    ];
    assert(bytes@ =~= serial_bytes(byte));
    bytes
}

/// One pixel's twelve serial bytes: green, then red, then blue.
pub fn encode_pixel(pixel: Pixel) -> (bytes: [u8; 12])
    ensures
        bytes@ == serial_pixel(pixel),
{
    let g = pixel_to_pulsecodes(pixel.g);
    let r = pixel_to_pulsecodes(pixel.r);
    let b = pixel_to_pulsecodes(pixel.b);
    let mut bytes = [0u8; 12];
    let mut i: usize = 0;
    while i < 4
        invariant
            i <= 4,
            forall|j: int| 0 <= j < i ==> bytes@[j] == g@[j],
            forall|j: int| 0 <= j < i ==> bytes@[4 + j] == r@[j],
            forall|j: int| 0 <= j < i ==> bytes@[8 + j] == b@[j],
        decreases 4 - i,
    {
        bytes[i] = g[i];
        bytes[4 + i] = r[i];
        bytes[8 + i] = b[i];
        i = i + 1;
    }
    proof {
        let want = g@ + r@ + b@;
        assert forall|j: int| 0 <= j < 12 implies bytes@[j] == want[j] by {
            if j < 4 {
            } else if j < 8 {
                assert(bytes@[4 + (j - 4)] == r@[j - 4]);
            } else {
                assert(bytes@[8 + (j - 8)] == b@[j - 8]);
            }
        }
        assert(bytes@ =~= want);
    }
    bytes
}

/// Serial bytes lose nothing of the byte: two bytes with the same serial bytes
/// are the same byte.
pub proof fn lemma_serial_bytes_injective(a: u8, b: u8)
    requires
        serial_bytes(a) == serial_bytes(b),
    ensures
        a == b,
{
    let sa = symbols_of(a);
    let sb = symbols_of(b);
    assert forall|i: int| 0 <= i < 8 implies sa[i] == sb[i] by {
        let k = i / 2;
        assert(serial_bytes(a)[k] == spec_pack(sa[2 * k], sa[2 * k + 1]));
        assert(serial_bytes(b)[k] == spec_pack(sb[2 * k], sb[2 * k + 1]));
        assert(i == 2 * k || i == 2 * k + 1);
    }
    assert(sa =~= sb);
    lemma_encode_injective(a, b);
}

/// The encoded size depends on the number of pixels alone: twelve bytes each.
pub proof fn lemma_serial_frame_size(pixels: Seq<Pixel>)
    ensures
        serial_frame(pixels).len() == 12 * pixels.len(),
        forall|i: int| 0 <= i < pixels.len() ==> (#[trigger] serial_pixel(pixels[i])).len() == 12,
{
}

/// The twelve bytes of every pixel in a frame hold its green byte first, then
/// red, then blue, whatever the colours are.
pub proof fn lemma_serial_channel_order(pixels: Seq<Pixel>, i: int)
    requires
        0 <= i < pixels.len(),
    ensures
        serial_frame(pixels).subrange(12 * i, 12 * i + 4) == serial_bytes(pixels[i].g),
        serial_frame(pixels).subrange(12 * i + 4, 12 * i + 8) == serial_bytes(pixels[i].r),
        serial_frame(pixels).subrange(12 * i + 8, 12 * i + 12) == serial_bytes(pixels[i].b),
{
    let frame = serial_frame(pixels);
    let p = serial_pixel(pixels[i]);
    assert forall|j: int| 0 <= j < 12 implies frame[12 * i + j] == p[j] by {
        assert((12 * i + j) / 12 == i && (12 * i + j) % 12 == j);
    }
    assert forall|j: int| 0 <= j < 4 implies #[trigger] frame.subrange(12 * i, 12 * i + 4)[j]
        == serial_bytes(pixels[i].g)[j] by {
        assert(frame[12 * i + j] == p[j]);
    }
    assert forall|j: int| 0 <= j < 4 implies #[trigger] frame.subrange(12 * i + 4, 12 * i + 8)[j]
        == serial_bytes(pixels[i].r)[j] by {
        assert(frame[12 * i + (4 + j)] == p[4 + j]);
    }
    assert forall|j: int| 0 <= j < 4 implies #[trigger] frame.subrange(12 * i + 8, 12 * i + 12)[j]
        == serial_bytes(pixels[i].b)[j] by {
        assert(frame[12 * i + (8 + j)] == p[8 + j]);
    }
    assert(frame.subrange(12 * i, 12 * i + 4) =~= serial_bytes(pixels[i].g));
    assert(frame.subrange(12 * i + 4, 12 * i + 8) =~= serial_bytes(pixels[i].r));
    assert(frame.subrange(12 * i + 8, 12 * i + 12) =~= serial_bytes(pixels[i].b));
}

/// What encoding `pixels` into a frame that held `before` gives: the outcome and
/// the frame's contents afterwards.
pub open spec fn encoded(
    before: Seq<u8>,
    pixels: Seq<Pixel>,
    outcome: Result<(), Error>,
    after: Seq<u8>,
) -> bool {
    if before.len() == 12 * pixels.len() {
        outcome == Ok::<(), Error>(()) && after == serial_frame(pixels)
    } else {
        outcome == Err::<(), Error>(Error::SizeMismatch) && after == before
    }
}

/// Encoding never changes a frame's size.
pub proof fn lemma_encoded_keeps_size(
    before: Seq<u8>,
    pixels: Seq<Pixel>,
    outcome: Result<(), Error>,
    after: Seq<u8>,
)
    requires
        encoded(before, pixels, outcome, after),
    ensures
        after.len() == before.len(),
{
}

/// Encoding is repeatable: the same pixels give the same bytes in any two frames
/// of the right size, whatever the frames held before.
pub proof fn lemma_encoded_repeatable(
    pixels: Seq<Pixel>,
    before1: Seq<u8>,
    outcome1: Result<(), Error>,
    after1: Seq<u8>,
    before2: Seq<u8>,
    outcome2: Result<(), Error>,
    after2: Seq<u8>,
)
    requires
        encoded(before1, pixels, outcome1, after1),
        encoded(before2, pixels, outcome2, after2),
        before1.len() == before2.len(),
    ensures
        outcome1 == outcome2,
        before1.len() == 12 * pixels.len() ==> after1 == after2,
{
}

/// The encoded form of a frame for the serial engine: one flat byte buffer. It is
/// made once for a strip and overwritten for every frame.
pub struct SerialFrame {
    bytes: Vec<u8>,
}

impl View for SerialFrame {
    type V = Seq<u8>;

    closed spec fn view(&self) -> Seq<u8> {
        self.bytes@
    }
}

impl SerialFrame {
    /// The number of pixels that the frame has room for.
    pub open spec fn spec_num_pixels(&self) -> nat {
        self@.len() / 12
    }

    /// A frame of zero bytes for `num_pixels` pixels, or `FrameTooLarge` if its
    /// length cannot be expressed.
    pub fn new(num_pixels: usize) -> (r: Result<SerialFrame, Error>)
        ensures
            12 * num_pixels <= usize::MAX ==> r is Ok && r->Ok_0@ == Seq::new(
                12 * num_pixels as nat,
                |k: int| 0u8,
            ),
            12 * num_pixels > usize::MAX ==> r == Err::<SerialFrame, Error>(Error::FrameTooLarge),
    {
        if num_pixels > usize::MAX / 12 {
            return Err(Error::FrameTooLarge);
        }
        let len: usize = 12 * num_pixels;
        let mut bytes: Vec<u8> = Vec::new();
        let mut i: usize = 0;
        while i < len
            invariant
                i <= len,
                bytes@.len() == i,
                forall|k: int| 0 <= k < i ==> bytes@[k] == 0u8,
            decreases len - i,
        {
            bytes.push(0);
            i = i + 1;
        }
        assert(bytes@ =~= Seq::new(12 * num_pixels as nat, |k: int| 0u8));
        Ok(SerialFrame { bytes })
    }

    /// The number of pixels that the frame has room for.
    pub fn num_pixels(&self) -> (n: usize)
        ensures
            n == self.spec_num_pixels(),
    {
        self.bytes.len() / 12
    }

    /// The encoded bytes, as they are handed to the serial engine.
    pub fn bytes(&self) -> (bytes: &Vec<u8>)
        ensures
            bytes@ == self@,
    {
        &self.bytes
    }

    /// Encodes `pixels` into the frame. What the frame held before plays no
    /// part. The frame's size never changes: pixels of another number are
    /// refused and the frame is left as it was.
    pub fn encode(&mut self, pixels: &PixelBuffer) -> (r: Result<(), Error>)
        ensures
            encoded(old(self)@, pixels@, r, final(self)@),
    {
        let n = self.bytes.len() / 12;
        if self.bytes.len() % 12 != 0 || pixels.len() != n {
            return Err(Error::SizeMismatch);
        }
        let mut i: usize = 0;
        while i < n
            invariant
                n == pixels@.len(),
                self.bytes@.len() == 12 * n,
                12 * n <= usize::MAX,
                i <= n,
                forall|k: int|
                    0 <= k < 12 * i ==> self.bytes@[k] == serial_pixel(pixels@[k / 12])[k % 12],
            decreases n - i,
        {
            let chunk = encode_pixel(pixels.get(i));
            let base: usize = 12 * i;
            let mut j: usize = 0;
            while j < 12
                invariant
                    j <= 12,
                    i < n,
                    n == pixels@.len(),
                    base == 12 * i,
                    12 * n <= usize::MAX,
                    self.bytes@.len() == 12 * n,
                    chunk@ == serial_pixel(pixels@[i as int]),
                    forall|k: int|
                        0 <= k < 12 * i ==> self.bytes@[k] == serial_pixel(pixels@[k / 12])[k % 12],
                    forall|k: int| 0 <= k < j ==> self.bytes@[base + k] == chunk@[k],
                decreases 12 - j,
            {
                self.bytes.set(base + j, chunk[j]);
                j = j + 1;
            }
            proof {
                assert forall|k: int| 0 <= k < 12 * (i + 1) implies self.bytes@[k] == serial_pixel(
                    pixels@[k / 12],
                )[k % 12] by {
                    if k >= 12 * i {
                        assert(k / 12 == i as int && k % 12 == k - base);
                        assert(self.bytes@[base + (k - base)] == chunk@[k - base]);
                    }
                }
            }
            i = i + 1;
        }
        assert(self@ =~= serial_frame(pixels@));
        Ok(())
    }
}

} // verus!
