//! Verified core of a FormatPlan-driven OOXML (.docx) writer and analyzer.

pub mod analyze;
pub mod archive;
pub mod autoformat;
pub mod body;
pub mod cli;
pub mod docx;
pub mod parts;
pub mod plan;
pub mod presets;
pub mod props;
pub mod refs;
pub mod text;
pub mod xmlev;
