pub mod chords;
pub mod config;
pub mod display;
pub mod instrument;
pub mod midi;
pub mod note;
pub mod probe;
pub mod quantizer;
pub mod scales;
pub mod store;
pub mod wavetable;
