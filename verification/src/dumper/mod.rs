//! The two extraction engines and the helper that repairs a raw dump.

pub mod dexdumper;
pub mod dexheader;
pub mod dexregions;
pub mod dexsize;
pub mod linker;
pub mod runs;
pub mod scans;
pub mod sodumper;
pub mod sofixer;
pub mod soinfo;
pub mod target;

pub use dexdumper::{DexDumper, DexDumperError};
pub use sodumper::{SoDumper, SoDumperError};
pub use sofixer::SoFixer;
