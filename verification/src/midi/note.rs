pub use crate::note::Note;
