//! Decoding of headerless audio sample dumps: fixed-width PCM at 8, 16, 24
//! and 32 bits in either byte order, and 4-bit OKI/VOX ADPCM.
pub mod batch;
pub mod decode;
pub mod filter;
pub mod format;
pub mod vox;
