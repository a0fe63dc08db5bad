//! Fixed-point simulation clock and the stepping decisions of an orbit
//! simulation, with the integer parts of its Bessel series.
pub mod clock;
pub mod control;
pub mod series;
