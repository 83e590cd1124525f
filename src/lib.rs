//! Decoding of uncompressed indexed-colour bitmaps and clipped compositing
//! into a 320 x 200 indexed framebuffer.

pub mod bmp;
pub mod dpmi;
pub mod vga;
pub mod viewer;
