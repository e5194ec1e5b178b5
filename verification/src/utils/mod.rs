//! Descriptions of a process's address space and of what is loaded in it.

pub mod maps;
pub mod process;
pub mod types;

pub use maps::parse_proc_maps;
pub use process::{get_pid_by_name, list_so_files, SoFileInfo};
pub use types::{MappingView, MemoryMapping, SoInfo};
