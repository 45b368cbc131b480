//! Reading, transforming and writing RIFF/WAVE files held in memory.
pub mod le;
pub mod samples;
pub mod wav;
pub mod laws;
