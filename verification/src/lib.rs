//! On-device text detection and recognition for comic pages: the weight
//! store; the weights of the detector and of the recognizer, resolved by
//! name, and the shapes that their blocks take and give; the detector's
//! geometry and suppression; the recognizer's decoding rules, vocabulary and
//! text normalization; and the page archive. Each with its contract.
//!
//! Single-precision values are carried as their IEEE 754 bit patterns
//! (`u32`), so that every rule on them is a rule on integers. The
//! arithmetic of the networks is not part of this library.

pub mod cbz;
pub mod comic_text_detector;
pub mod error;
pub mod hex;
pub mod ieee;
pub mod manga_ocr;
pub mod names;
pub mod pipeline;
pub mod pixels;
pub mod tensor;
pub mod weights;

use vstd::prelude::*;

verus! {

/// Whether the Metal backend is compiled in: it is not.
pub fn metal_is_available() -> (available: bool)
    ensures
        !available,
{
    false
}

} // verus!
