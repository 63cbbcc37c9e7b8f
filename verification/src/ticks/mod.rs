pub mod decimal;
pub mod integer_tick;
pub mod nice_step;

pub use nice_step::find_nice_step;
pub mod aligned_integers;
pub mod generated;

pub use aligned_integers::{AlignedIntegers, IntegerFormat};
pub use generated::{Format, GeneratedTicks};
pub use integer_tick::IntegerTick;
