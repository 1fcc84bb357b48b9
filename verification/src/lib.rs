//! A driver core for strips of single-wire addressable LEDs.
//!
//! A frame goes from colours to the wire in three steps. The [`pixel`] store
//! holds the strip's colours. The bit encoder in [`symbol`] turns each colour
//! byte into eight protocol symbols, most significant bit first. A backend turns
//! the symbols into what its peripheral sends: [`pulse`] into descriptors for a
//! pulse generator, one block per pixel; [`serial`] into a flat byte buffer for a
//! serial engine that clocks out one bit per protocol time unit. Channels always
//! go out green, red, blue.
//!
//! The [`scheduler`] decides what the refresh loop does next. It performs no
//! input or output itself: a driver carries out each action on the hardware and
//! reports the outcome.

pub mod error;
pub mod pixel;
pub mod pulse;
pub mod scheduler;
pub mod serial;
pub mod symbol;
