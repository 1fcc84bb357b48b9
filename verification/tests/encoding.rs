use ws2812::error::Error;
use ws2812::pixel::{Pixel, PixelBuffer};
use ws2812::pulse::{
    pulse_code, Level, PulseClock, PulseFrame, CODES_PER_PIXEL, DEFAULT_CLOCK_MHZ, END_MARKER,
    MAX_CLOCK_MHZ, MIN_CLOCK_MHZ,
};
use ws2812::serial::{SerialFrame, BYTES_PER_PIXEL, ONE_PULSE, ZERO_PULSE};
use ws2812::symbol::{decode_symbols, encode_byte, bit_at, Symbol};

const ZERO_CODE: u32 = 0x0030_801C;
const ONE_CODE: u32 = 0x0030_8038;

fn strip(colours: &[(u8, u8, u8)]) -> PixelBuffer {
    let mut buf = PixelBuffer::new(colours.len());
    for (i, &(r, g, b)) in colours.iter().enumerate() {
        buf.set(i, Pixel { r, g, b });
    }
    buf
}

#[test]
fn round_trip_every_byte() {
    for b in 0..=255u8 {
        let symbols = encode_byte(b);
        assert_eq!(decode_symbols(&symbols), b);
    }
}

#[test]
fn round_trip_every_symbol_pattern() {
    for pattern in 0..=255u8 {
        let mut symbols = [Symbol::Zero; 8];
        for i in 0..8 {
            if pattern & (1 << i) != 0 {
                symbols[i] = Symbol::One;
            }
        }
        assert_eq!(encode_byte(decode_symbols(&symbols)), symbols);
    }
    let o = Symbol::One;
    let z = Symbol::Zero;
    assert_eq!(decode_symbols(&[o, z, o, o, z, z, o, z]), 0b1011_0010);
}

#[test]
fn bits_come_most_significant_first() {
    let symbols = encode_byte(0b1000_0001);
    assert_eq!(symbols[0], Symbol::One);
    for s in &symbols[1..7] {
        assert_eq!(*s, Symbol::Zero);
    }
    assert_eq!(symbols[7], Symbol::One);
    assert!(bit_at(0x80, 0));
    assert!(!bit_at(0x80, 7));
    assert!(bit_at(0x01, 7));
}

#[test]
fn all_zero_and_all_one_bytes() {
    assert_eq!(encode_byte(0x00), [Symbol::Zero; 8]);
    assert_eq!(encode_byte(0xFF), [Symbol::One; 8]);
    assert_eq!(decode_symbols(&[Symbol::Zero; 8]), 0);
    assert_eq!(decode_symbols(&[Symbol::One; 8]), 255);
}

#[test]
fn symbol_timing() {
    assert_eq!(Symbol::Zero.high_ns(), 350);
    assert_eq!(Symbol::Zero.low_ns(), 600);
    assert_eq!(Symbol::One.high_ns(), 700);
    assert_eq!(Symbol::One.low_ns(), 600);
    assert!(Symbol::One.bit());
    assert!(!Symbol::Zero.bit());
    assert_eq!(Symbol::from_bit(true), Symbol::One);
    assert_eq!(Symbol::from_bit(false), Symbol::Zero);
}

#[test]
fn pulse_descriptor_layout() {
    assert_eq!(pulse_code(Level::High, 28, Level::Low, 48), ZERO_CODE);
    assert_eq!(pulse_code(Level::High, 56, Level::Low, 48), ONE_CODE);
    assert_eq!(pulse_code(Level::Low, 0, Level::Low, 0), END_MARKER);
    assert_eq!(pulse_code(Level::Low, 1, Level::High, 2), 0x8002_0001);
    assert_eq!(pulse_code(Level::High, 0x7FFF, Level::High, 0x7FFF), 0xFFFF_FFFF);
}

#[test]
fn ticks_at_the_default_clock() {
    let clock = PulseClock::new(DEFAULT_CLOCK_MHZ).unwrap();
    assert_eq!(clock.mhz(), 80);
    assert_eq!(clock.ticks(350), 28);
    assert_eq!(clock.ticks(700), 56);
    assert_eq!(clock.ticks(600), 48);
    assert_eq!(clock.symbol_code(Symbol::Zero), ZERO_CODE);
    assert_eq!(clock.symbol_code(Symbol::One), ONE_CODE);
}

#[test]
fn ticks_follow_the_clock() {
    let clock = PulseClock::new(40).unwrap();
    assert_eq!(clock.ticks(350), 14);
    assert_eq!(clock.ticks(700), 28);
    assert_eq!(clock.ticks(600), 24);
    assert_eq!(clock.symbol_code(Symbol::One), pulse_code(Level::High, 28, Level::Low, 24));
    let slow = PulseClock::new(5).unwrap();
    assert_eq!(slow.ticks(350), 1);
    assert_eq!(slow.ticks(700), 3);
    assert_eq!(slow.ticks(600), 3);
    let fast = PulseClock::new(46811).unwrap();
    assert_eq!(fast.ticks(700), 0x7FFF);
    assert_eq!(fast.ticks(u32::MAX), 201_051_714_046);
    assert_eq!(fast.symbol_code(Symbol::One), pulse_code(Level::High, 32767, Level::Low, 28086));
}

#[test]
fn unsupported_clocks_are_refused() {
    assert_eq!(PulseClock::new(0).err(), Some(Error::UnsupportedClock));
    assert_eq!(PulseClock::new(3).err(), Some(Error::UnsupportedClock));
    assert_eq!(PulseClock::new(4).err(), Some(Error::UnsupportedClock));
    assert_eq!(PulseClock::new(46812).err(), Some(Error::UnsupportedClock));
    assert_eq!(PulseClock::new(u32::MAX).err(), Some(Error::UnsupportedClock));
    assert!(PulseClock::new(5).is_ok());
    assert!(PulseClock::new(6).is_ok());
    assert!(PulseClock::new(46811).is_ok());
    assert_eq!(MIN_CLOCK_MHZ, 5);
    assert_eq!(MAX_CLOCK_MHZ, 46811);
}

#[test]
fn pulse_codes_of_a_byte() {
    assert_eq!(
        ws2812::pulse::pixel_to_pulsecodes(0b1011_0010),
        [ONE_CODE, ZERO_CODE, ONE_CODE, ONE_CODE, ZERO_CODE, ZERO_CODE, ONE_CODE, ZERO_CODE]
    );
    let clock = PulseClock::new(80).unwrap();
    for b in 0..=255u8 {
        assert_eq!(clock.encode_channel(b), ws2812::pulse::pixel_to_pulsecodes(b));
    }
}

#[test]
fn serial_bytes_of_a_byte() {
    assert_eq!(ZERO_PULSE, 0b1000);
    assert_eq!(ONE_PULSE, 0b1100);
    assert_eq!(
        ws2812::serial::pixel_to_pulsecodes(0b1011_0010),
        [
            ONE_PULSE << 4 | ZERO_PULSE,
            ONE_PULSE << 4 | ONE_PULSE,
            ZERO_PULSE << 4 | ZERO_PULSE,
            ONE_PULSE << 4 | ZERO_PULSE,
        ]
    );
    assert_eq!(ws2812::serial::pixel_to_pulsecodes(0b1011_0010), [0xC8, 0xCC, 0x88, 0xC8]);
    assert_eq!(ws2812::serial::pixel_to_pulsecodes(0x00), [0x88; 4]);
    assert_eq!(ws2812::serial::pixel_to_pulsecodes(0xFF), [0xCC; 4]);
    assert_eq!(ws2812::serial::pixel_to_pulsecodes(0b0101_0101), [0x8C; 4]);
}

#[test]
fn serial_packing() {
    assert_eq!(ws2812::serial::nibble(Symbol::Zero), 0b1000);
    assert_eq!(ws2812::serial::nibble(Symbol::One), 0b1100);
    assert_eq!(ws2812::serial::pack(Symbol::Zero, Symbol::One), 0x8C);
    assert_eq!(ws2812::serial::pack(Symbol::One, Symbol::Zero), 0xC8);
}

#[test]
fn one_pixel_seven_zero_three_pulse() {
    let pixels = strip(&[(7, 0, 3)]);
    let clock = PulseClock::new(80).unwrap();
    let mut frame = PulseFrame::new(1);
    assert_eq!(frame.encode(&clock, &pixels), Ok(()));
    let z = ZERO_CODE;
    let o = ONE_CODE;
    let expected: [u32; 25] = [
        z, z, z, z, z, z, z, z, // green 0x00
        z, z, z, z, z, o, o, o, // red 0x07
        z, z, z, z, z, z, o, o, // blue 0x03
        0,
    ];
    assert_eq!(*frame.block(0), expected);
}

#[test]
fn one_pixel_seven_zero_three_symbols() {
    let p = Pixel { r: 7, g: 0, b: 3 };
    let z = Symbol::Zero;
    let o = Symbol::One;
    assert_eq!(encode_byte(p.g), [z; 8]);
    assert_eq!(encode_byte(p.r), [z, z, z, z, z, o, o, o]);
    assert_eq!(encode_byte(p.b), [z, z, z, z, z, z, o, o]);
}

#[test]
fn one_pixel_seven_zero_three_serial() {
    let pixels = strip(&[(7, 0, 3)]);
    let mut frame = SerialFrame::new(1).unwrap();
    assert_eq!(frame.encode(&pixels), Ok(()));
    assert_eq!(
        frame.bytes().as_slice(),
        &[0x88, 0x88, 0x88, 0x88, 0x88, 0x88, 0x8C, 0xCC, 0x88, 0x88, 0x88, 0xCC]
    );
    assert_eq!(
        ws2812::serial::encode_pixel(Pixel { r: 7, g: 0, b: 3 }),
        [0x88, 0x88, 0x88, 0x88, 0x88, 0x88, 0x8C, 0xCC, 0x88, 0x88, 0x88, 0xCC]
    );
}

#[test]
fn channel_order_is_green_red_blue() {
    let p = Pixel { r: 0x0F, g: 0xF0, b: 0xAA };
    let pixels = strip(&[(1, 2, 3), (0x0F, 0xF0, 0xAA)]);

    let clock = PulseClock::new(80).unwrap();
    let mut frame = PulseFrame::new(2);
    frame.encode(&clock, &pixels).unwrap();
    let block = frame.block(1);
    assert_eq!(block[0..8], clock.encode_channel(p.g));
    assert_eq!(block[8..16], clock.encode_channel(p.r));
    assert_eq!(block[16..24], clock.encode_channel(p.b));
    assert_eq!(block[24], END_MARKER);
    assert_eq!(*block, clock.encode_pixel(p));

    let mut bytes = SerialFrame::new(2).unwrap();
    bytes.encode(&pixels).unwrap();
    let seg = &bytes.bytes()[12..24];
    assert_eq!(seg[0..4], ws2812::serial::pixel_to_pulsecodes(p.g));
    assert_eq!(seg[4..8], ws2812::serial::pixel_to_pulsecodes(p.r));
    assert_eq!(seg[8..12], ws2812::serial::pixel_to_pulsecodes(p.b));
    assert_eq!(seg[0..4], [0xCC, 0xCC, 0x88, 0x88]);
    assert_eq!(seg[4..8], [0x88, 0x88, 0xCC, 0xCC]);
    assert_eq!(seg[8..12], [0xC8, 0xC8, 0xC8, 0xC8]);
}

#[test]
fn encoded_sizes() {
    assert_eq!(CODES_PER_PIXEL, 25);
    assert_eq!(BYTES_PER_PIXEL, 12);
    for n in [0usize, 1, 2, 16, 600] {
        let pixels = PixelBuffer::new(n);
        let clock = PulseClock::new(80).unwrap();
        let mut frame = PulseFrame::new(n);
        assert_eq!(frame.num_pixels(), n);
        frame.encode(&clock, &pixels).unwrap();
        assert_eq!(frame.num_pixels(), n);
        let mut slots = 0usize;
        for i in 0..n {
            slots += frame.block(i).len();
        }
        assert_eq!(slots, n * 25);

        let mut bytes = SerialFrame::new(n).unwrap();
        assert_eq!(bytes.bytes().len(), n * 12);
        assert_eq!(bytes.num_pixels(), n);
        bytes.encode(&pixels).unwrap();
        assert_eq!(bytes.bytes().len(), n * 12);
    }
}

#[test]
fn fresh_frames_are_blank() {
    let frame = PulseFrame::new(3);
    for i in 0..3 {
        assert_eq!(*frame.block(i), [END_MARKER; 25]);
    }
    let bytes = SerialFrame::new(3).unwrap();
    assert_eq!(bytes.bytes().as_slice(), &[0u8; 36]);
}

#[test]
fn black_strip_encodes_to_zero_symbols() {
    let pixels = PixelBuffer::new(2);
    let mut bytes = SerialFrame::new(2).unwrap();
    bytes.encode(&pixels).unwrap();
    assert_eq!(bytes.bytes().as_slice(), &[0x88u8; 24]);
}

#[test]
fn empty_strip_encodes_to_nothing() {
    let pixels = PixelBuffer::new(0);
    assert!(pixels.is_empty());
    let clock = PulseClock::new(80).unwrap();
    let mut frame = PulseFrame::new(0);
    assert_eq!(frame.encode(&clock, &pixels), Ok(()));
    assert_eq!(frame.num_pixels(), 0);
    let mut bytes = SerialFrame::new(0).unwrap();
    assert_eq!(bytes.encode(&pixels), Ok(()));
    assert!(bytes.bytes().is_empty());
}

#[test]
fn encoding_is_repeatable() {
    let pixels = strip(&[(7, 0, 3), (255, 128, 1), (0, 0, 0)]);
    let other = strip(&[(9, 9, 9), (1, 2, 3), (4, 5, 6)]);
    let clock = PulseClock::new(80).unwrap();

    let mut a = PulseFrame::new(3);
    let mut b = PulseFrame::new(3);
    b.encode(&clock, &other).unwrap();
    a.encode(&clock, &pixels).unwrap();
    b.encode(&clock, &pixels).unwrap();
    for i in 0..3 {
        assert_eq!(a.block(i), b.block(i));
    }
    let first: Vec<[u32; 25]> = (0..3).map(|i| *a.block(i)).collect();
    a.encode(&clock, &pixels).unwrap();
    for i in 0..3 {
        assert_eq!(*a.block(i), first[i]);
    }

    let mut c = SerialFrame::new(3).unwrap();
    let mut d = SerialFrame::new(3).unwrap();
    d.encode(&other).unwrap();
    c.encode(&pixels).unwrap();
    d.encode(&pixels).unwrap();
    assert_eq!(c.bytes(), d.bytes());
    let first = c.bytes().clone();
    c.encode(&pixels).unwrap();
    assert_eq!(*c.bytes(), first);
}

#[test]
fn frames_refuse_another_strip_length() {
    let pixels = strip(&[(1, 2, 3), (4, 5, 6)]);
    let clock = PulseClock::new(80).unwrap();
    let mut frame = PulseFrame::new(3);
    assert_eq!(frame.encode(&clock, &pixels), Err(Error::SizeMismatch));
    assert_eq!(frame.num_pixels(), 3);
    assert_eq!(*frame.block(0), [END_MARKER; 25]);

    let mut bytes = SerialFrame::new(1).unwrap();
    assert_eq!(bytes.encode(&pixels), Err(Error::SizeMismatch));
    assert_eq!(bytes.bytes().as_slice(), &[0u8; 12]);
}

#[test]
fn oversized_serial_frame_is_refused() {
    assert_eq!(SerialFrame::new(usize::MAX).err(), Some(Error::FrameTooLarge));
    assert_eq!(SerialFrame::new(usize::MAX / 12 + 1).err(), Some(Error::FrameTooLarge));
}

#[test]
fn pixel_store() {
    let mut buf = PixelBuffer::new(4);
    assert_eq!(buf.len(), 4);
    assert!(!buf.is_empty());
    for i in 0..4 {
        assert_eq!(buf.get(i), Pixel::black());
        assert_eq!(buf.get(i), Pixel { r: 0, g: 0, b: 0 });
    }
    buf.set(2, Pixel { r: 1, g: 2, b: 3 });
    assert_eq!(buf.len(), 4);
    assert_eq!(buf.get(2), Pixel { r: 1, g: 2, b: 3 });
    assert_eq!(buf.get(1), Pixel::black());
    assert_eq!(buf.get(3), Pixel::black());
}

#[test]
fn colours_from_random_words() {
    assert_eq!(Pixel::from_random(0), Pixel { r: 0, g: 0, b: 0 });
    assert_eq!(Pixel::from_random(0xFFFF_FFFF), Pixel { r: 7, g: 7, b: 7 });
    assert_eq!(Pixel::from_random(0xAB_FF_05_0A), Pixel { r: 2, g: 5, b: 7 });
    assert_eq!(Pixel::from_random(0x00_03_00_07), Pixel { r: 7, g: 0, b: 3 });
    assert_eq!(Pixel::from_random(0x00_08_10_F8), Pixel { r: 0, g: 0, b: 0 });
}

#[test]
fn randomize_fills_in_place() {
    let mut buf = PixelBuffer::new(3);
    buf.set(2, Pixel { r: 9, g: 9, b: 9 });
    buf.randomize(&vec![0x00_03_00_07, 0x00_01_02_03]);
    assert_eq!(buf.len(), 3);
    assert_eq!(buf.get(0), Pixel { r: 7, g: 0, b: 3 });
    assert_eq!(buf.get(1), Pixel { r: 3, g: 2, b: 1 });
    assert_eq!(buf.get(2), Pixel { r: 9, g: 9, b: 9 });
    buf.randomize(&vec![1, 2, 3, 4, 5]);
    assert_eq!(buf.len(), 3);
    assert_eq!(buf.get(2), Pixel { r: 3, g: 0, b: 0 });
}

#[test]
fn error_classes() {
    assert!(!Error::UnsupportedClock.is_recoverable());
    assert!(!Error::FrameTooLarge.is_recoverable());
    assert!(!Error::SizeMismatch.is_recoverable());
    assert!(!Error::StartupFailed.is_recoverable());
    assert!(Error::Transmission { transfer: 2 }.is_recoverable());
}
