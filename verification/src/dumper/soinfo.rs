//! The loader's list of loaded objects as it lies in the target's memory:
//! its nodes, the walk along them, and the search for a node as a raw
//! pattern.

use crate::codec::{
    le_bytes_u64, le_u64, lemma_le_u64_injective, lemma_le_u64_range, lemma_le_u64_round_trip,
    u64_at,
};
use crate::utils::types::SoInfo;
use vstd::prelude::*;

verus! {

/// The number of bytes read for one node of the loader's list.
pub const SOINFO_RECORD_SIZE: u64 = 256;

/// Where a node keeps the load base of its object.
pub const SOINFO_BASE_OFFSET: usize = 0x10;

/// Where a node keeps the size of its object.
pub const SOINFO_SIZE_OFFSET: usize = 0x18;

/// Where a node keeps the address of the next node.
pub const SOINFO_NEXT_OFFSET: usize = 0x28;

/// The node that a record read out of the target's memory holds, if the
/// record is long enough to hold the three fields.
pub open spec fn soinfo_of(data: Seq<u8>) -> Option<SoInfo> {
    if data.len() >= SOINFO_NEXT_OFFSET + 8 {
        Some(
            SoInfo {
                base: le_u64(data.subrange(SOINFO_BASE_OFFSET as int, SOINFO_BASE_OFFSET + 8)) as u64,
                size: le_u64(data.subrange(SOINFO_SIZE_OFFSET as int, SOINFO_SIZE_OFFSET + 8)) as u64,
                next: le_u64(data.subrange(SOINFO_NEXT_OFFSET as int, SOINFO_NEXT_OFFSET + 8)) as u64,
            },
        )
    } else {
        None
    }
}

/// Reads the load base, the size and the link to the next node out of a
/// record of the loader's list.
pub fn parse_soinfo(data: &[u8]) -> (info: Option<SoInfo>)
    ensures
        info == soinfo_of(data@),
{
    let base = u64_at(data, SOINFO_BASE_OFFSET);
    let size = u64_at(data, SOINFO_SIZE_OFFSET);
    let next = u64_at(data, SOINFO_NEXT_OFFSET);
    match (base, size, next) {
        (Some(base), Some(size), Some(next)) => Some(SoInfo { base, size, next }),
        _ => None,
    }
}

/// The address that the head pointer of the loader's list holds.
pub open spec fn head_of(data: Seq<u8>) -> Option<u64> {
    if data.len() == 8 {
        Some(le_u64(data) as u64)
    } else {
        None
    }
}

/// Reads the head pointer of the loader's list out of the eight bytes at
/// the list's address.
pub fn get_solist_head(data: &[u8]) -> (head: Option<u64>)
    ensures
        head == head_of(data@),
{
    if data.len() == 8 {
        proof {
            assert(data@.subrange(0, 8) =~= data@);
        }
        u64_at(data, 0)
    } else {
        None
    }
}

/// A walk along the loader's list of loaded objects in search of the
/// object that is loaded at `target`.
#[derive(Debug, Clone, Copy, PartialEq, Eq, Structural)]
pub struct SoinfoWalk {
    /// The address of the node to visit next; zero ends the list.
    pub current: u64,
    /// The number of nodes visited so far.
    pub steps: usize,
    /// The number of nodes that may be visited at most.
    pub cap: usize,
    /// The load base that is searched for.
    pub target: u64,
}

/// What a walk has come to after a node.
#[derive(Debug, Clone, Copy, PartialEq, Eq, Structural)]
pub enum WalkStep {
    /// The node belongs to another object; the walk goes on.
    Continue(SoinfoWalk),
    /// The node belongs to the target, whose size it gives.
    Found(u64),
    /// No node was asked for, or the node could not be read.
    Lost,
}

/// A node that was read, belongs to another object than the one loaded at
/// `target`, and is not the last.
pub open spec fn leads_on(record: Option<SoInfo>, target: u64) -> bool {
    record matches Some(info) && info.base != target && info.next != 0
}

impl SoinfoWalk {
    /// The address of the node that the walk visits next; none once the
    /// list has ended or the cap is reached.
    pub open spec fn wanted(self) -> Option<u64> {
        if self.current != 0 && self.steps < self.cap {
            Some(self.current)
        } else {
            None
        }
    }

    /// What the walk comes to when the node it asked for turns out to be
    /// `record`, or unreadable.
    pub open spec fn fed(self, record: Option<SoInfo>) -> WalkStep {
        match (self.wanted(), record) {
            (Some(_), Some(info)) => if info.base == self.target {
                WalkStep::Found(info.size)
            } else {
                WalkStep::Continue(
                    SoinfoWalk { current: info.next, steps: (self.steps + 1) as usize, ..self },
                )
            },
            _ => WalkStep::Lost,
        }
    }

    /// A walk that begins at `head`.
    pub fn new(head: u64, target: u64, cap: usize) -> (walk: SoinfoWalk)
        ensures
            walk == (SoinfoWalk { current: head, steps: 0, cap, target }),
    {
        SoinfoWalk { current: head, steps: 0, cap, target }
    }

    /// The address of the node to read next.
    pub fn next_read(&self) -> (address: Option<u64>)
        ensures
            address == self.wanted(),
    {
        if self.current != 0 && self.steps < self.cap {
            Some(self.current)
        } else {
            None
        }
    }

    /// Takes the node that was asked for.
    pub fn feed(&self, record: Option<SoInfo>) -> (step: WalkStep)
        ensures
            step == self.fed(record),
    {
        if self.current == 0 || self.steps >= self.cap {
            return WalkStep::Lost;
        }
        match record {
            Some(info) => if info.base == self.target {
                WalkStep::Found(info.size)
            } else {
                WalkStep::Continue(
                    SoinfoWalk {
                        current: info.next,
                        steps: self.steps + 1,
                        cap: self.cap,
                        target: self.target,
                    },
                )
            },
            None => WalkStep::Lost,
        }
    }

    /// The number of nodes that the walk reads when the reads it asks for
    /// are answered by `records`, one after the other.
    pub open spec fn reads_made(self, records: Seq<Option<SoInfo>>) -> nat
        decreases records.len(),
    {
        if records.len() == 0 || self.wanted() is None {
            0
        } else {
            1 + match self.fed(records[0]) {
                WalkStep::Continue(next) => next.reads_made(records.drop_first()),
                _ => 0,
            }
        }
    }

    /// What the walk has come to when the reads it asks for are answered by
    /// `records`, one after the other, until it asks for none or the
    /// answers run out.
    pub open spec fn walked(self, records: Seq<Option<SoInfo>>) -> WalkStep
        decreases records.len(),
    {
        if records.len() == 0 || self.wanted() is None {
            WalkStep::Continue(self)
        } else {
            match self.fed(records[0]) {
                WalkStep::Continue(next) => next.walked(records.drop_first()),
                step => step,
            }
        }
    }

    /// However the memory of the target answers, a walk never reads more
    /// nodes than its cap leaves it.
    pub proof fn lemma_reads_bounded(self, records: Seq<Option<SoInfo>>)
        requires
            self.steps <= self.cap,
        ensures
            self.steps + self.reads_made(records) <= self.cap,
        decreases records.len(),
    {
        if records.len() > 0 && self.wanted() is Some {
            match self.fed(records[0]) {
                WalkStep::Continue(next) => {
                    next.lemma_reads_bounded(records.drop_first());
                },
                _ => {},
            }
        }
    }

    /// A list whose terminator is broken, so that no node is the last and
    /// none belongs to the target, is left when the cap is reached: the
    /// walk then asks for nothing more and has found nothing.
    pub proof fn lemma_endless_list_ends_at_cap(self, records: Seq<Option<SoInfo>>)
        requires
            self.steps <= self.cap,
            self.current != 0,
            records.len() >= self.cap - self.steps,
            forall|i: int| 0 <= i < records.len() ==> leads_on(#[trigger] records[i], self.target),
        ensures
            self.reads_made(records) == self.cap - self.steps,
            self.walked(records) matches WalkStep::Continue(end) && end.steps == self.cap
                && end.wanted() is None,
        decreases records.len(),
    {
        if records.len() > 0 && self.wanted() is Some {
            match self.fed(records[0]) {
                WalkStep::Continue(next) => {
                    let rest = records.drop_first();
                    assert forall|i: int| 0 <= i < rest.len() implies leads_on(
                        #[trigger] rest[i],
                        next.target,
                    ) by {
                        assert(rest[i] == records[i + 1]);
                    }
                    next.lemma_endless_list_ends_at_cap(rest);
                },
                _ => {},
            }
        }
    }
}

/// The first position at or after `from` where the eight bytes that denote
/// `target` stand in `data`; the length of `data` if there is none.
pub open spec fn first_pattern(data: Seq<u8>, target: u64, from: int) -> int
    decreases data.len() - from,
{
    if from < 0 || from + 8 > data.len() {
        data.len() as int
    } else if le_u64(data.subrange(from, from + 8)) == target {
        from
    } else {
        first_pattern(data, target, from + 1)
    }
}

/// The size that the raw search finds: the number in the eight bytes that
/// follow the first occurrence of the target's load base, if they lie
/// within the data.
pub open spec fn searched_size(data: Seq<u8>, target: u64) -> Option<u64> {
    let at = first_pattern(data, target, 0);
    if at + 16 <= data.len() {
        Some(le_u64(data.subrange(at + 8, at + 16)) as u64)
    } else {
        None
    }
}

/// Eight bytes denote the load base of the target exactly if they are the
/// load base written as eight bytes, least significant first: the search
/// for the number is the search for that raw pattern.
pub proof fn lemma_pattern_is_encoding(window: Seq<u8>, target: u64)
    requires
        window.len() == 8,
    ensures
        le_u64(window) == target <==> window == le_bytes_u64(target),
{
    lemma_le_u64_round_trip(target);
    if le_u64(window) == target {
        lemma_le_u64_injective(window, le_bytes_u64(target));
    }
}

/// Where the first occurrence of a pattern lies: not before the start of
/// the search, on an occurrence or at the end, with no occurrence before.
pub proof fn lemma_first_pattern(data: Seq<u8>, target: u64, from: int)
    requires
        0 <= from <= data.len(),
    ensures
        from <= first_pattern(data, target, from) <= data.len(),
        first_pattern(data, target, from) < data.len() ==> {
            let at = first_pattern(data, target, from);
            at + 8 <= data.len() && le_u64(data.subrange(at, at + 8)) == target
        },
        forall|j: int|
            from <= j < first_pattern(data, target, from) && j + 8 <= data.len() ==> le_u64(
                #[trigger] data.subrange(j, j + 8),
            ) != target,
    decreases data.len() - from,
{
    if from + 8 <= data.len() && le_u64(data.subrange(from, from + 8)) != target {
        lemma_first_pattern(data, target, from + 1);
    }
}

/// Looks through memory read at the head of the loader's list for the
/// target's load base as eight little-endian bytes, and takes the eight
/// bytes after its first occurrence for the size.
pub fn search_soinfo_chain(chain_data: &[u8], target_base: u64) -> (size: Option<u64>)
    ensures
        size == searched_size(chain_data@, target_base),
{
    if chain_data.len() < 16 {
        proof {
            lemma_first_pattern(chain_data@, target_base, 0);
        }
        return None;
    }
    let len = chain_data.len();
    let last = len - 16;
    let mut i: usize = 0;
    while i <= last
        invariant
            len == chain_data@.len(),
            last == len - 16,
            i <= last + 1,
            first_pattern(chain_data@, target_base, 0) == first_pattern(
                chain_data@,
                target_base,
                i as int,
            ),
        decreases last + 1 - i,
    {
        proof {
            lemma_le_u64_range(chain_data@.subrange(i as int, i + 8));
        }
        if u64_at(chain_data, i) == Some(target_base) {
            return u64_at(chain_data, i + 8);
        }
        i += 1;
    }
    proof {
        lemma_first_pattern(chain_data@, target_base, i as int);
    }
    None
}

} // verus!
