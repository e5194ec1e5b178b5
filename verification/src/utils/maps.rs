//! Reading a process's region table.

use crate::text::{
    fields, number_of, parse_unsigned, scan, scan_to, split_fields, string_from_chars, texts,
    to_chars, Class,
};
use crate::utils::types::{mapping_views, MappingView, MemoryMapping};
use vstd::prelude::*;
use vstd::slice::slice_subrange;

verus! {

/// What one line of the region table describes.
///
/// A line counts if it has at least six fields, its first field is two
/// hexadecimal numbers joined by a hyphen, its third a hexadecimal number
/// and its fifth a decimal one. The sixth field is the path.
pub open spec fn parse_line(line: Seq<char>) -> Option<MappingView> {
    let f = fields(line);
    if f.len() < 6 {
        None
    } else {
        let dash = scan(f[0], 0, Class::Dash);
        if dash < 0 || dash >= f[0].len() {
            None
        } else {
            let start = number_of(f[0].subrange(0, dash), 16);
            let end = number_of(f[0].subrange(dash + 1, f[0].len() as int), 16);
            let offset = number_of(f[2], 16);
            let inode = number_of(f[4], 10);
            if start is Some && end is Some && offset is Some && inode is Some {
                Some(
                    MappingView {
                        start: start->0,
                        end: end->0,
                        permissions: f[1],
                        offset: offset->0,
                        device: f[3],
                        inode: inode->0,
                        pathname: f[5],
                    },
                )
            } else {
                None
            }
        }
    }
}

/// The mappings that the lines of `text` from position `from` on describe,
/// in the order of the lines; lines that describe none are passed over.
pub open spec fn parse_from(text: Seq<char>, from: int) -> Seq<MappingView>
    decreases text.len() - from,
{
    if from < 0 || from >= text.len() {
        Seq::empty()
    } else {
        let end = scan(text, from, Class::Newline);
        if end < from || end > text.len() {
            Seq::empty()
        } else {
            let here = match parse_line(text.subrange(from, end)) {
                Some(m) => seq![m],
                None => Seq::empty(),
            };
            if end >= text.len() {
                here
            } else {
                here + parse_from(text, end + 1)
            }
        }
    }
}

/// The mappings that a region table describes.
pub open spec fn parse_text(text: Seq<char>) -> Seq<MappingView> {
    parse_from(text, 0)
}

/// Reads one line of a region table.
pub fn parse_maps_line(line: &[char]) -> (mapping: Option<MemoryMapping>)
    ensures
        match mapping {
            Some(m) => parse_line(line@) == Some(m@),
            None => parse_line(line@) is None,
        },
{
    let parts = split_fields(line);
    if parts.len() < 6 {
        return None;
    }
    proof {
        assert(texts(parts@).len() == parts@.len());
        assert(forall|i: int| 0 <= i < parts@.len() ==> fields(line@)[i] == parts@[i]@);
    }
    let range = parts[0].as_slice();
    let dash = scan_to(range, 0, Class::Dash);
    if dash >= range.len() {
        return None;
    }
    let start = parse_unsigned(slice_subrange(range, 0, dash), 16);
    let end = parse_unsigned(slice_subrange(range, dash + 1, range.len()), 16);
    let offset = parse_unsigned(parts[2].as_slice(), 16);
    let inode = parse_unsigned(parts[4].as_slice(), 10);
    match (start, end, offset, inode) {
        (Some(start), Some(end), Some(offset), Some(inode)) => Some(
            MemoryMapping {
                start,
                end,
                permissions: string_from_chars(parts[1].as_slice()),
                offset,
                device: string_from_chars(parts[3].as_slice()),
                inode,
                pathname: string_from_chars(parts[5].as_slice()),
            },
        ),
        _ => None,
    }
}

/// Reads a region table: one mapping for each line that describes one, in
/// the order of the lines. A line that does not is passed over, and never
/// ends the reading.
pub fn parse_proc_maps(content: &str) -> (mappings: Vec<MemoryMapping>)
    ensures
        mapping_views(mappings@) == parse_text(content@),
{
    let text = to_chars(content);
    let mut mappings: Vec<MemoryMapping> = Vec::new();
    let mut from: usize = 0;
    proof {
        assert(mapping_views(mappings@) =~= Seq::<MappingView>::empty());
    }
    while from < text.len()
        invariant
            text@ == content@,
            from <= text@.len(),
            parse_text(content@) == mapping_views(mappings@) + parse_from(text@, from as int),
        decreases text@.len() - from,
    {
        let end = scan_to(text.as_slice(), from, Class::Newline);
        let ghost before = mapping_views(mappings@);
        let ghost here = match parse_line(text@.subrange(from as int, end as int)) {
            Some(m) => seq![m],
            None => Seq::empty(),
        };
        match parse_maps_line(slice_subrange(text.as_slice(), from, end)) {
            Some(m) => {
                mappings.push(m);
            },
            None => {},
        }
        proof {
            assert(mapping_views(mappings@) =~= before + here);
            if end >= text@.len() {
                assert(parse_from(text@, end + 1) =~= Seq::<MappingView>::empty());
            }
            assert(parse_from(text@, from as int) =~= here + parse_from(text@, end + 1));
            assert(parse_text(content@) =~= mapping_views(mappings@) + parse_from(
                text@,
                end + 1,
            ));
        }
        from = if end < text.len() {
            end + 1
        } else {
            end
        };
    }
    proof {
        assert(parse_from(text@, from as int) =~= Seq::<MappingView>::empty());
        assert(mapping_views(mappings@) + Seq::<MappingView>::empty() =~= mapping_views(
            mappings@,
        ));
    }
    mappings
}

} // verus!
