//! Small systems programs, with their computing cores verified.
pub mod cubesat;
pub mod lines;
pub mod grep;
pub mod ethernet;
pub mod clock;
pub mod http;
pub mod file_reader;
pub mod mandelbrot;
pub mod dns;
