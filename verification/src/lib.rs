//! A CHIP-8 virtual machine: a 4096-byte address space seeded with a built-in
//! font and a program image, a 64x32 monochrome framebuffer with XOR sprite
//! drawing and collision detection, a 16-key input surface, and the
//! fetch-decode-execute interpreter that drives them.

pub mod cpu;
pub mod graphics;
pub mod input;
pub mod interconnect;
pub mod memory;
