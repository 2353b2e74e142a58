//! A CRT-phosphor simulation over still images: the repeating RGB-triad
//! stripe mask with gutters, the sinusoidal scanline darkening, and the
//! resampling, brightness and PNG stages around them. The mask and scanline
//! transforms are specified pixel by pixel and verified; the stages an
//! image-processing library computes stand behind trusted wrappers whose
//! contracts name their results.

pub mod buffer;
pub mod mask;
pub mod scanline;
pub mod stages;
