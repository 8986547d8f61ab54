//! The rules of a small tower-defense game, on integer coordinates and
//! nanosecond time: towers fire at the nearest target when their cooldown
//! completes, bullets fly along a fixed direction until their lifetime runs
//! out, and targets move along one axis and leave once out of health.
pub mod bullet;
pub mod geometry;
pub mod target;
pub mod timer;
pub mod tower;
