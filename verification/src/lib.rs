//! Management tool for the Sodalite operating system: argument parsing,
//! disk image layout (MBR, CHS/LBA addressing), data size parsing and
//! log line formatting.

pub mod image;
pub mod units;
pub mod opt;
pub mod args;
pub mod logger;
pub mod plan;
mod text;

pub use logger::Logger;
pub use opt::{AbortControl, AbortLevel, Arch, Opt, PartitionTable as SelectedPartitionTable, Task};
