pub mod diatonic;
pub mod ionian;
