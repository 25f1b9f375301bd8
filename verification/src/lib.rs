//! The request and session core of an inference server: what a generation
//! request holds while it runs, how its tokens map onto cache blocks, when it
//! stops, and how the parallel completions of one request are gathered into
//! one response.

pub mod blocks;
pub mod stop;
pub mod text;
pub mod response;
pub mod group;
pub mod multimodal;
pub mod sequence;
pub mod image_url;
