//! A small decorative logger: levelled records rendered as framed, optionally
//! coloured line groups for the terminal, or as plain text for a log file.

pub mod ansi;
pub mod caller;
pub mod clock;
pub mod laws;
pub mod level;
pub mod logger;
pub mod padding;
pub mod payload;
pub mod record;
pub mod style;
pub mod text;
