//! The records that the dumpers pass around.

use vstd::prelude::*;

verus! {

/// One mapped range of a process's address space, as the region table of
/// the process describes it at one moment.
#[derive(Debug, Clone)]
pub struct MemoryMapping {
    pub start: u64,
    pub end: u64,
    pub permissions: String,
    pub offset: u64,
    pub device: String,
    pub inode: u64,
    pub pathname: String,
}

/// The mathematical content of a [`MemoryMapping`].
pub struct MappingView {
    pub start: u64,
    pub end: u64,
    pub permissions: Seq<char>,
    pub offset: u64,
    pub device: Seq<char>,
    pub inode: u64,
    pub pathname: Seq<char>,
}

impl View for MemoryMapping {
    type V = MappingView;

    open spec fn view(&self) -> MappingView {
        MappingView {
            start: self.start,
            end: self.end,
            permissions: self.permissions@,
            offset: self.offset,
            device: self.device@,
            inode: self.inode,
            pathname: self.pathname@,
        }
    }
}

/// The contents of a list of mappings.
pub open spec fn mapping_views(mappings: Seq<MemoryMapping>) -> Seq<MappingView> {
    Seq::new(mappings.len(), |i: int| mappings[i]@)
}

impl MappingView {
    /// The number of bytes between the bounds; zero where the bounds are
    /// out of order.
    pub open spec fn size(self) -> int {
        if self.end >= self.start {
            self.end - self.start
        } else {
            0
        }
    }

    /// The first permission flag grants reading.
    pub open spec fn is_read(self) -> bool {
        self.permissions.len() > 0 && self.permissions[0] == 'r'
    }
}

/// One node of the loader's list of loaded objects, as read out of the
/// target's memory.
#[derive(Debug, Clone, Copy, PartialEq, Eq, Structural)]
pub struct SoInfo {
    pub base: u64,
    pub size: u64,
    pub next: u64,
}

} // verus!
