//! Verified support library for a small 3D rendering toolkit: decoding of
//! DDS (DirectDraw Surface) texture files and parsing of OBJ model files.

pub mod dds;
pub mod obj;
