//! A CHIP-8 virtual machine: a fetch-decode-execute interpreter over a
//! 4096-byte memory, sixteen 8-bit registers, a 64x32 monochrome
//! framebuffer, a 16-key keyboard and two 60Hz timers.
//!
//! Every instruction's effect is specified by the mathematical transition
//! function in [`machine`] and the executable interpreter is proved to
//! implement it. Window rendering, event polling and ROM file loading are
//! external collaborators and are not part of this crate.

pub mod bus;
pub mod busstate;
pub mod cpu;
pub mod decoder;
pub mod framebuffer;
pub mod keyboard;
pub mod machine;
pub mod memory;
