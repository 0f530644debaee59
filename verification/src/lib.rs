//! Fixed-point waveform synthesis: a sine generator built on a Maclaurin
//! series with explicit range reduction, and index-parity square/triangle
//! generators. Samples and parameters are Q32.32 fixed-point values carried
//! in `i64` (the real number `v` is represented by the integer
//! `round(v * 2^32)`).

pub mod trig;
pub mod wave;

pub use trig::sin_val;
pub use wave::generate_sine_wave;
pub use wave::generate_square_wave;
pub use wave::generate_triangle_wave;
