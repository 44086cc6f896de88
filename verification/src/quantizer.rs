pub mod diatonic;
