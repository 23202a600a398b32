//! The editing and export rules of a video clipping application: sections
//! and their export, speed and repetition, subtitles, output formats and the
//! ffmpeg passes of an export, each with a proved contract.
use vstd::prelude::*;

pub mod adjustments;
pub mod editor;
pub mod export;
pub mod ffmpeg;
pub mod media;
pub mod paths;
pub mod profiles;
pub mod segments;
pub mod stages;
pub mod subtitles;
pub mod text;

verus! {

} // verus!
