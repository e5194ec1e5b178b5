//! The mapped span of a library in a region table, and how far a size
//! that was read out of the target's memory is believed.

use crate::text::contains_seq;
use crate::utils::types::MappingView;
use vstd::prelude::*;

verus! {

/// `name` occurs in the path that backs the mapping.
pub open spec fn backed_by(m: MappingView, name: Seq<char>) -> bool {
    contains_seq(m.pathname, name)
}

/// The start of the first mapping, in the order of the table, that is
/// backed by `name`.
pub open spec fn first_start(maps: Seq<MappingView>, name: Seq<char>) -> Option<u64>
    decreases maps.len(),
{
    if maps.len() == 0 {
        None
    } else if backed_by(maps[0], name) {
        Some(maps[0].start)
    } else {
        first_start(maps.drop_first(), name)
    }
}

/// The lowest start and the highest end among the mappings that are backed
/// by `name`.
pub open spec fn target_span(maps: Seq<MappingView>, name: Seq<char>) -> Option<(u64, u64)>
    decreases maps.len(),
{
    if maps.len() == 0 {
        None
    } else {
        let before = target_span(maps.drop_last(), name);
        let last = maps.last();
        if backed_by(last, name) {
            match before {
                Some((base, end)) => Some(
                    (
                        if last.start < base {
                            last.start
                        } else {
                            base
                        },
                        if last.end > end {
                            last.end
                        } else {
                            end
                        },
                    ),
                ),
                None => Some((last.start, last.end)),
            }
        } else {
            before
        }
    }
}

/// The span of a target is what its name says: there is one exactly if a
/// mapping is backed by the target, its base is the start of such a
/// mapping and no such mapping starts lower, and its end is the end of
/// such a mapping and no such mapping ends higher.
pub proof fn lemma_target_span(maps: Seq<MappingView>, name: Seq<char>)
    ensures
        target_span(maps, name) is Some <==> exists|i: int|
            0 <= i < maps.len() && backed_by(#[trigger] maps[i], name),
        target_span(maps, name) matches Some((base, end)) ==> {
            &&& exists|i: int|
                0 <= i < maps.len() && backed_by(#[trigger] maps[i], name) && maps[i].start == base
            &&& exists|i: int|
                0 <= i < maps.len() && backed_by(#[trigger] maps[i], name) && maps[i].end == end
            &&& forall|i: int|
                0 <= i < maps.len() && backed_by(#[trigger] maps[i], name) ==> base
                    <= maps[i].start && maps[i].end <= end
        },
    decreases maps.len(),
{
    if maps.len() > 0 {
        let front = maps.drop_last();
        let n = front.len() as int;
        lemma_target_span(front, name);
        assert(forall|i: int| 0 <= i < n ==> front[i] == maps[i]);
        assert(maps.last() == maps[n]);
        match target_span(front, name) {
            Some((base, end)) => {
                let i0 = choose|i: int|
                    0 <= i < front.len() && backed_by(#[trigger] front[i], name) && front[i].start
                        == base;
                let i1 = choose|i: int|
                    0 <= i < front.len() && backed_by(#[trigger] front[i], name) && front[i].end
                        == end;
                assert(backed_by(maps[i0], name) && maps[i0].start == base);
                assert(backed_by(maps[i1], name) && maps[i1].end == end);
            },
            None => {},
        }
        if target_span(maps, name) is Some {
            if backed_by(maps[n], name) {
            } else {
                let i = choose|i: int| 0 <= i < front.len() && backed_by(#[trigger] front[i], name);
                assert(backed_by(maps[i], name));
            }
        }
        if exists|i: int| 0 <= i < maps.len() && backed_by(#[trigger] maps[i], name) {
            let i = choose|i: int| 0 <= i < maps.len() && backed_by(#[trigger] maps[i], name);
            if i < n {
                assert(backed_by(front[i], name));
            }
        }
    }
}

/// The number of bytes between the bounds of a span; zero where the bounds
/// are out of order.
pub open spec fn span_size(base: u64, end: u64) -> u64 {
    if end >= base {
        (end - base) as u64
    } else {
        0
    }
}

/// The number of bytes that the mapped span of a target covers.
pub fn mapped_size(base: u64, end: u64) -> (size: u64)
    ensures
        size == span_size(base, end),
{
    if end >= base {
        end - base
    } else {
        0
    }
}

/// The size that is taken for the size of the target: the size that was
/// found, unless it is more than `factor` times the size of the mapped
/// span, in which case it is the size of the mapped span.
pub open spec fn plausible_size(found: u64, raw: u64, factor: u64) -> u64 {
    if found > raw * factor {
        raw
    } else {
        found
    }
}

/// Holds a size that was read out of the target's memory against the size
/// of the mapped span.
pub fn clamp_size(found: u64, raw: u64, factor: u64) -> (size: u64)
    ensures
        size == plausible_size(found, raw, factor),
{
    match raw.checked_mul(factor) {
        Some(limit) => if found > limit {
            raw
        } else {
            found
        },
        None => found,
    }
}

/// A size that has passed the check against the mapped span never exceeds
/// the size of the mapped span times the factor, whatever was found.
pub proof fn lemma_plausible_size_bounded(found: u64, raw: u64, factor: u64)
    requires
        factor >= 1,
    ensures
        plausible_size(found, raw, factor) <= raw * factor,
        found > raw * factor ==> plausible_size(found, raw, factor) == raw,
        found <= raw * factor ==> plausible_size(found, raw, factor) == found,
{
    assert(raw <= raw * factor) by (nonlinear_arith)
        requires
            factor >= 1,
            raw >= 0,
    ;
}

} // verus!
