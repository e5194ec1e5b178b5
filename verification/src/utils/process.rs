//! What runs on a system and what a process has loaded: finding a
//! process by name, and listing the native libraries of a process.

use crate::text::{
    contains_chars, contains_seq, fields, last_component, last_component_of, number_of,
    parse_unsigned, scan, scan_to, split_fields, string_from_chars, texts, to_chars, Class,
};
use vstd::prelude::*;
use vstd::seq_lib::{to_multiset_contains, to_multiset_insert, to_multiset_remove};
use vstd::slice::slice_subrange;

verus! {

/// One native library of a process: its name, the path that backs it, the
/// span that its mappings cover together, and the permissions of the
/// first of them.
#[derive(Debug, Clone)]
pub struct SoFileInfo {
    pub name: String,
    pub path: String,
    pub start: u64,
    pub end: u64,
    pub size: u64,
    pub permissions: String,
}

/// The mathematical content of a [`SoFileInfo`].
pub struct SoFileView {
    pub name: Seq<char>,
    pub path: Seq<char>,
    pub start: u64,
    pub end: u64,
    pub size: u64,
    pub permissions: Seq<char>,
}

impl View for SoFileInfo {
    type V = SoFileView;

    open spec fn view(&self) -> SoFileView {
        SoFileView {
            name: self.name@,
            path: self.path@,
            start: self.start,
            end: self.end,
            size: self.size,
            permissions: self.permissions@,
        }
    }
}

/// The contents of a list of libraries.
pub open spec fn so_views(files: Seq<SoFileInfo>) -> Seq<SoFileView> {
    Seq::new(files.len(), |i: int| files[i]@)
}

/// The number of bytes from `start` to `end`; zero where they are out of
/// order.
pub open spec fn extent(start: u64, end: u64) -> u64 {
    if end >= start {
        (end - start) as u64
    } else {
        0
    }
}

/// The parts put together with one space between each two.
pub open spec fn joined(parts: Seq<Seq<char>>) -> Seq<char>
    decreases parts.len(),
{
    if parts.len() == 0 {
        Seq::empty()
    } else if parts.len() == 1 {
        parts[0]
    } else {
        joined(parts.drop_last()) + seq![' '] + parts.last()
    }
}

/// The library that one line of the region table speaks of.
///
/// A line counts if it mentions `.so`, has at least six fields, and its
/// first field is two hexadecimal numbers joined by a hyphen. The path is
/// everything from the sixth field on and has to mention `.so` itself; the
/// name is the last component of the path.
pub open spec fn so_entry(line: Seq<char>) -> Option<SoFileView> {
    let f = fields(line);
    if !contains_seq(line, ".so"@) || f.len() < 6 {
        None
    } else {
        let dash = scan(f[0], 0, Class::Dash);
        if dash < 0 || dash >= f[0].len() {
            None
        } else {
            let start = number_of(f[0].subrange(0, dash), 16);
            let end = number_of(f[0].subrange(dash + 1, f[0].len() as int), 16);
            let path = joined(f.skip(5));
            if start is Some && end is Some && contains_seq(path, ".so"@) {
                Some(
                    SoFileView {
                        name: last_component(path, 0),
                        path,
                        start: start->0,
                        end: end->0,
                        size: extent(start->0, end->0),
                        permissions: f[1],
                    },
                )
            } else {
                None
            }
        }
    }
}

/// The libraries that the lines of `text` from position `from` on speak
/// of, one for each line that counts, in the order of the lines.
pub open spec fn so_entries_from(text: Seq<char>, from: int) -> Seq<SoFileView>
    decreases text.len() - from,
{
    if from < 0 || from >= text.len() {
        Seq::empty()
    } else {
        let end = scan(text, from, Class::Newline);
        if end < from || end > text.len() {
            Seq::empty()
        } else {
            let here = match so_entry(text.subrange(from, end)) {
                Some(e) => seq![e],
                None => Seq::empty(),
            };
            if end >= text.len() {
                here
            } else {
                here + so_entries_from(text, end + 1)
            }
        }
    }
}

/// The position of the first library of the list with this name; the
/// length of the list if there is none.
pub open spec fn position_of(list: Seq<SoFileView>, name: Seq<char>) -> int
    decreases list.len(),
{
    if list.len() == 0 {
        0
    } else if list[0].name == name {
        0
    } else {
        1 + position_of(list.drop_first(), name)
    }
}

/// The list after one more line: a library that the list holds already
/// has its span widened to take the line's span in, and keeps its path and
/// permissions; a new one is put at the end.
pub open spec fn absorbed(list: Seq<SoFileView>, e: SoFileView) -> Seq<SoFileView> {
    let at = position_of(list, e.name);
    if 0 <= at < list.len() {
        let old = list[at];
        let start = if e.start < old.start {
            e.start
        } else {
            old.start
        };
        let end = if e.end > old.end {
            e.end
        } else {
            old.end
        };
        list.update(at, SoFileView { start, end, size: extent(start, end), ..old })
    } else {
        list.push(e)
    }
}

/// The libraries of a process, each once, in the order in which the
/// region table first speaks of them.
pub open spec fn merged(entries: Seq<SoFileView>) -> Seq<SoFileView>
    decreases entries.len(),
{
    if entries.len() == 0 {
        Seq::empty()
    } else {
        absorbed(merged(entries.drop_last()), entries.last())
    }
}

/// The libraries that a region table speaks of, each once.
pub open spec fn so_files_of(text: Seq<char>) -> Seq<SoFileView> {
    merged(so_entries_from(text, 0))
}

/// No library of the list starts below one that stands before it.
pub open spec fn sorted_by_start(list: Seq<SoFileView>) -> bool {
    forall|i: int, j: int| 0 <= i <= j < list.len() ==> list[i].start <= list[j].start
}

fn join_from(parts: &Vec<Vec<char>>, from: usize) -> (out: Vec<char>)
    requires
        from <= parts@.len(),
    ensures
        out@ == joined(texts(parts@).skip(from as int)),
{
    let mut out: Vec<char> = Vec::new();
    let ghost all = texts(parts@).skip(from as int);
    let mut k: usize = from;
    proof {
        assert(all.take(0) =~= Seq::<Seq<char>>::empty());
    }
    while k < parts.len()
        invariant
            from <= k <= parts@.len(),
            all == texts(parts@).skip(from as int),
            out@ == joined(all.take(k - from)),
        decreases parts@.len() - k,
    {
        let ghost before = out@;
        if k > from {
            out.push(' ');
        }
        let part = &parts[k];
        let mut j: usize = 0;
        let ghost base = out@;
        while j < part.len()
            invariant
                j <= part@.len(),
                out@ == base + part@.take(j as int),
            decreases part@.len() - j,
        {
            out.push(part[j]);
            j += 1;
            proof {
                assert(out@ =~= base + part@.take(j as int));
            }
        }
        proof {
            assert(part@.take(part@.len() as int) =~= part@);
            let next = all.take(k - from + 1);
            assert(next.drop_last() =~= all.take(k - from));
            assert(next.last() == part@);
            if k > from {
                assert(out@ =~= before + seq![' '] + part@);
            } else {
                assert(out@ =~= part@);
            }
        }
        k += 1;
    }
    proof {
        assert(all.take(k - from) =~= all);
    }
    out
}

/// Reads what one line of a region table says of a native library.
pub fn so_entry_of(line: &[char]) -> (entry: Option<SoFileInfo>)
    ensures
        match entry {
            Some(e) => so_entry(line@) == Some(e@),
            None => so_entry(line@) is None,
        },
{
    let marker = to_chars(".so");
    if !contains_chars(line, marker.as_slice()) {
        return None;
    }
    let parts = split_fields(line);
    if parts.len() < 6 {
        return None;
    }
    proof {
        assert(texts(parts@).len() == parts@.len());
        assert(forall|i: int| 0 <= i < parts@.len() ==> fields(line@)[i] == parts@[i]@);
    }
    let range = parts[0].as_slice();
    let dash = scan_to(range, 0, Class::Dash);
    if dash >= range.len() {
        return None;
    }
    let start = parse_unsigned(slice_subrange(range, 0, dash), 16);
    let end = parse_unsigned(slice_subrange(range, dash + 1, range.len()), 16);
    let path = join_from(&parts, 5);
    match (start, end) {
        (Some(start), Some(end)) => {
            if !contains_chars(path.as_slice(), marker.as_slice()) {
                return None;
            }
            let name = last_component_of(path.as_slice());
            let size = if end >= start {
                end - start
            } else {
                0
            };
            Some(
                SoFileInfo {
                    name: string_from_chars(name.as_slice()),
                    path: string_from_chars(path.as_slice()),
                    start,
                    end,
                    size,
                    permissions: string_from_chars(parts[1].as_slice()),
                },
            )
        },
        _ => None,
    }
}

/// Takes one more line into the list of libraries.
pub fn absorb(list: &mut Vec<SoFileInfo>, entry: SoFileInfo)
    ensures
        so_views(final(list)@) == absorbed(so_views(old(list)@), entry@),
{
    let ghost views = so_views(list@);
    let mut at: usize = 0;
    proof {
        assert(views.skip(0) =~= views);
    }
    while at < list.len() && !(list[at].name == entry.name)
        invariant
            *list == *old(list),
            views == so_views(list@),
            at <= list@.len(),
            position_of(views, entry@.name) == at + position_of(
                views.skip(at as int),
                entry@.name,
            ),
        decreases list@.len() - at,
    {
        proof {
            assert(views.skip(at as int)[0] == list@[at as int]@);
            assert(views.skip(at as int).drop_first() =~= views.skip(at + 1));
        }
        at += 1;
    }
    if at < list.len() {
        proof {
            assert(views.skip(at as int)[0] == list@[at as int]@);
        }
        let mut found = list.remove(at);
        if entry.start < found.start {
            found.start = entry.start;
        }
        if entry.end > found.end {
            found.end = entry.end;
        }
        found.size = if found.end >= found.start {
            found.end - found.start
        } else {
            0
        };
        list.insert(at, found);
        proof {
            assert(so_views(list@) =~= absorbed(views, entry@));
        }
    } else {
        proof {
            assert(views.skip(at as int) =~= Seq::<SoFileView>::empty());
        }
        list.push(entry);
        proof {
            assert(so_views(list@) =~= absorbed(views, entry@));
        }
    }
}

/// Puts a list of libraries in the order of their start addresses.
pub fn sort_by_start(list: Vec<SoFileInfo>) -> (sorted: Vec<SoFileInfo>)
    ensures
        sorted_by_start(so_views(sorted@)),
        so_views(sorted@).to_multiset() == so_views(list@).to_multiset(),
{
    let mut rest = list;
    let mut sorted: Vec<SoFileInfo> = Vec::new();
    proof {
        assert(so_views(sorted@) =~= Seq::<SoFileView>::empty());
        assert(so_views(sorted@).to_multiset().add(so_views(rest@).to_multiset()) =~= so_views(
            list@,
        ).to_multiset()) by {
            broadcast use vstd::seq_lib::group_to_multiset_ensures;

        }
    }
    while rest.len() > 0
        invariant
            sorted_by_start(so_views(sorted@)),
            so_views(sorted@).to_multiset().add(so_views(rest@).to_multiset()) == so_views(
                list@,
            ).to_multiset(),
        decreases rest@.len(),
    {
        let ghost rest_before = so_views(rest@);
        let ghost sorted_before = so_views(sorted@);
        let last = rest.len() - 1;
        let item = rest.remove(last);
        proof {
            assert(so_views(rest@) =~= rest_before.remove(last as int));
            to_multiset_remove(rest_before, last as int);
        }
        let mut at: usize = 0;
        while at < sorted.len() && sorted[at].start <= item.start
            invariant
                at <= sorted@.len(),
                sorted_before == so_views(sorted@),
                forall|i: int| 0 <= i < at ==> sorted_before[i].start <= item.start,
            decreases sorted@.len() - at,
        {
            at += 1;
        }
        sorted.insert(at, item);
        proof {
            assert(so_views(sorted@) =~= sorted_before.insert(at as int, item@));
            to_multiset_insert(sorted_before, at as int, item@);
            assert(rest_before[last as int] == item@);
            assert(rest_before.contains(item@));
            to_multiset_contains(rest_before, item@);
            assert(so_views(sorted@).to_multiset().add(so_views(rest@).to_multiset()) =~= so_views(
                list@,
            ).to_multiset()) by {
                broadcast use vstd::multiset::group_multiset_axioms;

            }
            let now = so_views(sorted@);
            assert forall|i: int, j: int| 0 <= i <= j < now.len() implies now[i].start
                <= now[j].start by {
                if i < at && j > at {
                    assert(now[j] == sorted_before[j - 1]);
                    assert(sorted_before[at as int].start > item.start);
                } else if i < at && j < at {
                } else if i < at && j == at {
                } else if i == at && j > at {
                    assert(now[j] == sorted_before[j - 1]);
                } else if i > at {
                    assert(now[i] == sorted_before[i - 1]);
                    assert(now[j] == sorted_before[j - 1]);
                }
            }
        }
    }
    proof {
        assert(so_views(rest@) =~= Seq::<SoFileView>::empty());
        assert(so_views(rest@).to_multiset() =~= vstd::multiset::Multiset::<SoFileView>::empty())
            by {
            broadcast use vstd::seq_lib::group_to_multiset_ensures;

        }
        assert(so_views(sorted@).to_multiset().add(
            vstd::multiset::Multiset::<SoFileView>::empty(),
        ) =~= so_views(sorted@).to_multiset());
    }
    sorted
}

/// Lists the native libraries of a process from its region table: each
/// library once, with the span that all its mappings cover, in the order
/// of their start addresses.
pub fn list_so_files(content: &str) -> (files: Vec<SoFileInfo>)
    ensures
        sorted_by_start(so_views(files@)),
        so_views(files@).to_multiset() == so_files_of(content@).to_multiset(),
{
    let text = to_chars(content);
    let mut list: Vec<SoFileInfo> = Vec::new();
    let mut from: usize = 0;
    let ghost mut seen: Seq<SoFileView> = Seq::empty();
    proof {
        assert(so_views(list@) =~= Seq::<SoFileView>::empty());
    }
    while from < text.len()
        invariant
            text@ == content@,
            from <= text@.len(),
            so_entries_from(content@, 0) == seen + so_entries_from(text@, from as int),
            so_views(list@) == merged(seen),
        decreases text@.len() - from,
    {
        let end = scan_to(text.as_slice(), from, Class::Newline);
        let ghost here = match so_entry(text@.subrange(from as int, end as int)) {
            Some(e) => seq![e],
            None => Seq::empty(),
        };
        match so_entry_of(slice_subrange(text.as_slice(), from, end)) {
            Some(entry) => {
                proof {
                    assert(seen.push(entry@).drop_last() =~= seen);
                }
                absorb(&mut list, entry);
            },
            None => {},
        }
        proof {
            if end >= text@.len() {
                assert(so_entries_from(text@, end + 1) =~= Seq::<SoFileView>::empty());
            }
            assert(so_entries_from(text@, from as int) =~= here + so_entries_from(
                text@,
                end + 1,
            ));
            assert(so_views(list@) == merged(seen + here)) by {
                if here.len() == 0 {
                    assert(seen + here =~= seen);
                } else {
                    assert(seen + here =~= seen.push(here[0]));
                    assert((seen + here).drop_last() =~= seen);
                }
            }
            assert(so_entries_from(content@, 0) =~= (seen + here) + so_entries_from(
                text@,
                end + 1,
            ));
            seen = seen + here;
        }
        from = if end < text.len() {
            end + 1
        } else {
            end
        };
    }
    proof {
        assert(so_entries_from(text@, from as int) =~= Seq::<SoFileView>::empty());
        assert(seen + Seq::<SoFileView>::empty() =~= seen);
    }
    sort_by_start(list)
}

/// The process id that the name of an entry of the process directory
/// denotes: a decimal number that fits in 32 bits.
pub open spec fn pid_of(entry: Seq<char>) -> Option<u32> {
    match number_of(entry, 10) {
        Some(n) => if n <= u32::MAX {
            Some(n as u32)
        } else {
            None
        },
        None => None,
    }
}

/// The contents of a list of entries: the name of each, and its command
/// line if there is one.
pub open spec fn entry_views(entries: Seq<(String, Option<String>)>) -> Seq<
    (Seq<char>, Option<Seq<char>>),
> {
    Seq::new(
        entries.len(),
        |i: int|
            (
                entries[i].0@,
                match entries[i].1 {
                    Some(line) => Some(line@),
                    None => None,
                },
            ),
    )
}

/// The id of the first entry that denotes a process whose command line
/// mentions `name`.
pub open spec fn first_pid(entries: Seq<(Seq<char>, Option<Seq<char>>)>, name: Seq<char>) -> Option<
    u32,
>
    decreases entries.len(),
{
    if entries.len() == 0 {
        None
    } else if pid_of(entries[0].0) is Some && entries[0].1 is Some && contains_seq(
        entries[0].1->0,
        name,
    ) {
        pid_of(entries[0].0)
    } else {
        first_pid(entries.drop_first(), name)
    }
}

/// Finds a process by name among the entries of the process directory,
/// each given by its name and, where it could be read, the command line
/// of the process: the first entry whose name is a process id and whose
/// command line mentions the name.
pub fn get_pid_by_name(entries: &Vec<(String, Option<String>)>, process_name: &str) -> (pid:
    Option<u32>)
    ensures
        pid == first_pid(entry_views(entries@), process_name@),
{
    let needle = to_chars(process_name);
    let ghost all = entry_views(entries@);
    let mut i: usize = 0;
    proof {
        assert(all.skip(0) =~= all);
    }
    while i < entries.len()
        invariant
            i <= entries.len(),
            needle@ == process_name@,
            all == entry_views(entries@),
            first_pid(all, process_name@) == first_pid(all.skip(i as int), process_name@),
        decreases entries.len() - i,
    {
        proof {
            assert(all.skip(i as int)[0] == all[i as int]);
            assert(all.skip(i as int).drop_first() =~= all.skip(i + 1));
        }
        let name = to_chars(entries[i].0.as_str());
        match parse_unsigned(name.as_slice(), 10) {
            Some(n) => {
                if n <= u32::MAX as u64 {
                    match &entries[i].1 {
                        Some(line) => {
                            let chars = to_chars(line.as_str());
                            if contains_chars(chars.as_slice(), needle.as_slice()) {
                                return Some(n as u32);
                            }
                        },
                        None => {},
                    }
                }
            },
            None => {},
        }
        i += 1;
    }
    proof {
        assert(all.skip(i as int) =~= Seq::<(Seq<char>, Option<Seq<char>>)>::empty());
    }
    None
}

} // verus!
