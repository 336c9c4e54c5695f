//! Core of an audio-reactive LED strip: the integer and layout logic of the
//! render pipeline, and the differential wire encoding of pixel frames.
pub mod config;
pub mod frame;
pub mod history;
pub mod layout;
pub mod led;
pub mod preset;
