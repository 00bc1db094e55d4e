//! A library for driving a network label printer: the checksummed control
//! frame codec, the framebuffer-to-raster encoder, tape width resolution, the
//! QR-code label job and the print session state machine.
pub mod analyzer;
pub mod display;
pub mod error;
pub mod frame;
pub mod print;
pub mod raster;
pub mod session;
pub mod tape;
