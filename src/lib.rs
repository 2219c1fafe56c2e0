/// Parsing of offsets and lengths, and the run's settings.
pub mod args;
/// Per-file progress: the offset of each line and the length budget.
pub mod dump;
/// The errors that parsing can report.
pub mod errors;
/// The fields that bytes and offsets are written in.
pub mod format;
/// Drawing one line of the dump.
pub mod render;
