pub mod bytes;
pub mod carver;
pub mod cli;
pub mod config;
pub mod device;
pub mod error;
pub mod fs_scan;
pub mod model;
pub mod ntfs;
pub mod partition;
pub mod partition_scan;
pub mod recovery;
pub mod report;
pub mod scanner;
pub mod text;
