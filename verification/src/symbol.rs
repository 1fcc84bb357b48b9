//! The bit encoder: one colour byte becomes eight protocol symbols, most significant bit first.
//!
//! A symbol is a high pulse followed by a low pulse. A long high pulse carries a one,
//! a short high pulse carries a zero. The encoder knows nothing of the hardware that
//! puts the symbols on the wire; each backend turns the durations into its own units.

use vstd::prelude::*;

verus! {

/// Nanoseconds the line stays high for a zero bit.
pub const ZERO_HIGH_NS: u32 = 350;

/// Nanoseconds the line stays high for a one bit.
pub const ONE_HIGH_NS: u32 = 700;

/// Nanoseconds the line stays low after the high pulse, for either bit.
pub const LOW_NS: u32 = 600;

/// One protocol bit as it appears on the wire.
#[derive(Clone, Copy, Debug, PartialEq, Eq, Structural)]
pub enum Symbol {
    /// Short high pulse, then low.
    Zero,
    /// Long high pulse, then low.
    One,
}

impl Symbol {
    /// The symbol that carries `bit`.
    pub open spec fn spec_from_bit(bit: bool) -> Symbol {
        if bit {
            Symbol::One
        } else {
            Symbol::Zero
        }
    }

    /// The symbol that carries `bit`.
    pub fn from_bit(bit: bool) -> (s: Symbol)
        ensures
            s == Symbol::spec_from_bit(bit),
    {
        if bit {
            Symbol::One
        } else {
            Symbol::Zero
        }
    }

    pub open spec fn spec_high_ns(self) -> u32 {
        match self {
            Symbol::Zero => ZERO_HIGH_NS,
            Symbol::One => ONE_HIGH_NS,
        }
    }

    /// Duration of the symbol's high pulse in nanoseconds.
    #[verifier::when_used_as_spec(spec_high_ns)]
    pub fn high_ns(self) -> (ns: u32)
        ensures
            ns == self.spec_high_ns(),
    {
        match self {
            Symbol::Zero => ZERO_HIGH_NS,
            Symbol::One => ONE_HIGH_NS,
        }
    }

    pub open spec fn spec_low_ns(self) -> u32 {
        LOW_NS
    }

    /// Duration of the symbol's low pulse in nanoseconds.
    #[verifier::when_used_as_spec(spec_low_ns)]
    pub fn low_ns(self) -> (ns: u32)
        ensures
            ns == self.spec_low_ns(),
    {
        LOW_NS
    }

    /// The bit a symbol carries: one exactly when its high pulse is the long one.
    pub open spec fn spec_bit(self) -> bool {
        self.spec_high_ns() == ONE_HIGH_NS
    }

    /// Reads the bit back from the symbol's timing.
    #[verifier::when_used_as_spec(spec_bit)]
    pub fn bit(self) -> (bit: bool)
        ensures
            bit == self.spec_bit(),
    {
        self.high_ns() == ONE_HIGH_NS
    }
}

/// The value of the bit at position `i` of a byte, counted from the most
/// significant bit: 128 at position 0, 1 at position 7.
pub open spec fn place_value(i: int) -> int {
    if i <= 0 {
        128
    } else if i == 1 {
        64
    } else if i == 2 {
        32
    } else if i == 3 {
        16
    } else if i == 4 {
        8
    } else if i == 5 {
        4
    } else if i == 6 {
        2
    } else {
        1
    }
}

/// Bit `i` of `byte`, counted from the most significant bit (`i == 0`) down.
pub open spec fn bit_msb(byte: u8, i: int) -> bool {
    (byte as int / place_value(i)) % 2 == 1
}

/// The eight symbols of `byte` in transmission order.
pub open spec fn symbols_of(byte: u8) -> Seq<Symbol> {
    Seq::new(8, |i: int| Symbol::spec_from_bit(bit_msb(byte, i)))
}

/// The number whose bits, most significant first, are the eight given.
pub open spec fn sum_of_bits(
    b0: bool,
    b1: bool,
    b2: bool,
    b3: bool,
    b4: bool,
    b5: bool,
    b6: bool,
    b7: bool,
) -> int {
    bit_value(b0, 128) + bit_value(b1, 64) + bit_value(b2, 32) + bit_value(b3, 16) + bit_value(
        b4,
        8,
    ) + bit_value(b5, 4) + bit_value(b6, 2) + bit_value(b7, 1)
}

/// What a bit adds to a number: its place value if it is set.
pub open spec fn bit_value(bit: bool, place: int) -> int {
    if bit {
        place
    } else {
        0
    }
}

/// The byte that eight symbols spell, first symbol most significant.
pub open spec fn byte_of(symbols: Seq<Symbol>) -> int
    recommends
        symbols.len() == 8,
{
    sum_of_bits(
        symbols[0].spec_bit(),
        symbols[1].spec_bit(),
        symbols[2].spec_bit(),
        symbols[3].spec_bit(),
        symbols[4].spec_bit(),
        symbols[5].spec_bit(),
        symbols[6].spec_bit(),
        symbols[7].spec_bit(),
    )
}

/// Tests bit `i` of `byte`, counted from the most significant bit.
pub fn bit_at(byte: u8, i: usize) -> (bit: bool)
    requires
        i < 8,
    ensures
        bit == bit_msb(byte, i as int),
{
    let mask: u8 = 0x80u8 >> i;
    assert((byte & (0x80u8 >> i) != 0) == (if i == 0 {
        (byte as int / 128) % 2 == 1
    } else if i == 1 {
        (byte as int / 64) % 2 == 1
    } else if i == 2 {
        (byte as int / 32) % 2 == 1
    } else if i == 3 {
        (byte as int / 16) % 2 == 1
    } else if i == 4 {
        (byte as int / 8) % 2 == 1
    } else if i == 5 {
        (byte as int / 4) % 2 == 1
    } else if i == 6 {
        (byte as int / 2) % 2 == 1
    } else {
        (byte as int / 1) % 2 == 1
    })) by (bit_vector)
        requires
            i < 8,
    ;
    byte & mask != 0
}

/// Encodes one colour byte as its eight symbols, most significant bit first.
pub fn encode_byte(byte: u8) -> (symbols: [Symbol; 8])
    ensures
        symbols@ == symbols_of(byte),
{
    let symbols = [
        Symbol::from_bit(bit_at(byte, 0)),
        Symbol::from_bit(bit_at(byte, 1)),
        Symbol::from_bit(bit_at(byte, 2)),
        Symbol::from_bit(bit_at(byte, 3)),
        Symbol::from_bit(bit_at(byte, 4)),
        Symbol::from_bit(bit_at(byte, 5)),
        Symbol::from_bit(bit_at(byte, 6)),
        Symbol::from_bit(bit_at(byte, 7)),
    ];
    assert(symbols@ =~= symbols_of(byte));
    symbols
}

/// Decodes eight symbols back to the byte they spell, reading each bit from the
/// length of the symbol's high pulse.
pub fn decode_symbols(symbols: &[Symbol; 8]) -> (byte: u8)
    ensures
        byte == byte_of(symbols@),
{
    let mut byte: u8 = 0;
    if symbols[0].bit() {
        byte = byte + 128;
    }
    if symbols[1].bit() {
        byte = byte + 64;
    }
    if symbols[2].bit() {
        byte = byte + 32;
    }
    if symbols[3].bit() {
        byte = byte + 16;
    }
    if symbols[4].bit() {
        byte = byte + 8;
    }
    if symbols[5].bit() {
        byte = byte + 4;
    }
    if symbols[6].bit() {
        byte = byte + 2;
    }
    if symbols[7].bit() {
        byte = byte + 1;
    }
    byte
}

/// Round trip: the symbols of a byte spell that byte again.
pub proof fn lemma_decode_encode(byte: u8)
    ensures
        symbols_of(byte).len() == 8,
        byte_of(symbols_of(byte)) == byte,
{
    let s = symbols_of(byte);
    assert(byte as int == sum_of_bits(
        (byte / 128) % 2 == 1,
        (byte / 64) % 2 == 1,
        (byte / 32) % 2 == 1,
        (byte / 16) % 2 == 1,
        (byte / 8) % 2 == 1,
        (byte / 4) % 2 == 1,
        (byte / 2) % 2 == 1,
        (byte / 1) % 2 == 1,
    )) by (bit_vector);
    assert(s[0].spec_bit() == ((byte / 128) % 2 == 1));
    assert(s[1].spec_bit() == ((byte / 64) % 2 == 1));
    assert(s[2].spec_bit() == ((byte / 32) % 2 == 1));
    assert(s[3].spec_bit() == ((byte / 16) % 2 == 1));
    assert(s[4].spec_bit() == ((byte / 8) % 2 == 1));
    assert(s[5].spec_bit() == ((byte / 4) % 2 == 1));
    assert(s[6].spec_bit() == ((byte / 2) % 2 == 1));
    assert(s[7].spec_bit() == ((byte / 1) % 2 == 1));
}

/// Each bit of a sum of distinct place values is the bit that was put in.
proof fn lemma_bits_of_sum(
    b0: bool,
    b1: bool,
    b2: bool,
    b3: bool,
    b4: bool,
    b5: bool,
    b6: bool,
    b7: bool,
)
    ensures
        0 <= sum_of_bits(b0, b1, b2, b3, b4, b5, b6, b7) <= 255,
        (sum_of_bits(b0, b1, b2, b3, b4, b5, b6, b7) / 128) % 2 == 1 <==> b0,
        (sum_of_bits(b0, b1, b2, b3, b4, b5, b6, b7) / 64) % 2 == 1 <==> b1,
        (sum_of_bits(b0, b1, b2, b3, b4, b5, b6, b7) / 32) % 2 == 1 <==> b2,
        (sum_of_bits(b0, b1, b2, b3, b4, b5, b6, b7) / 16) % 2 == 1 <==> b3,
        (sum_of_bits(b0, b1, b2, b3, b4, b5, b6, b7) / 8) % 2 == 1 <==> b4,
        (sum_of_bits(b0, b1, b2, b3, b4, b5, b6, b7) / 4) % 2 == 1 <==> b5,
        (sum_of_bits(b0, b1, b2, b3, b4, b5, b6, b7) / 2) % 2 == 1 <==> b6,
        (sum_of_bits(b0, b1, b2, b3, b4, b5, b6, b7) / 1) % 2 == 1 <==> b7,
{
    let h = bit_value(b0, 8) + bit_value(b1, 4) + bit_value(b2, 2) + bit_value(b3, 1);
    let l = bit_value(b4, 8) + bit_value(b5, 4) + bit_value(b6, 2) + bit_value(b7, 1);
    let v = sum_of_bits(b0, b1, b2, b3, b4, b5, b6, b7);
    assert(v == 16 * h + l);
    assert(0 <= h < 16 && 0 <= l < 16);
    assert(v / 16 == h);
    assert(v / 128 == h / 8 && v / 64 == h / 4 && v / 32 == h / 2);
    assert(v / 8 == 2 * h + l / 8);
    assert(v / 4 == 4 * h + l / 4);
    assert(v / 2 == 8 * h + l / 2);
}

/// Round trip the other way: eight symbols spell a byte, and that byte's
/// symbols are the same eight.
pub proof fn lemma_encode_decode(symbols: Seq<Symbol>)
    requires
        symbols.len() == 8,
    ensures
        0 <= byte_of(symbols) <= u8::MAX,
        symbols_of(byte_of(symbols) as u8) == symbols,
{
    let s = symbols;
    lemma_bits_of_sum(
        s[0].spec_bit(),
        s[1].spec_bit(),
        s[2].spec_bit(),
        s[3].spec_bit(),
        s[4].spec_bit(),
        s[5].spec_bit(),
        s[6].spec_bit(),
        s[7].spec_bit(),
    );
    let byte = byte_of(s) as u8;
    assert forall|i: int| 0 <= i < 8 implies symbols_of(byte)[i] == s[i] by {
        assert(bit_msb(byte, i) == s[i].spec_bit());
    }
    assert(symbols_of(byte) =~= s);
}

/// Encoding is injective: two bytes with the same symbols are the same byte.
pub proof fn lemma_encode_injective(a: u8, b: u8)
    requires
        symbols_of(a) == symbols_of(b),
    ensures
        a == b,
{
    lemma_decode_encode(a);
    lemma_decode_encode(b);
}

} // verus!
