//! Dumping a loaded native library out of a process: one session from the
//! loading of the loader's binary to the process running again.

use super::linker::{get_solist_offset, solist_offset};
use super::sofixer::{fixer_args, SoFixer, FIXER_MODE};
use super::soinfo::{
    get_solist_head, parse_soinfo, search_soinfo_chain, searched_size, soinfo_of, SoinfoWalk,
    WalkStep, SOINFO_RECORD_SIZE,
};
use super::target::{
    clamp_size, first_start, mapped_size, plausible_size, span_size, target_span,
};
use crate::codec::le_u64;
use crate::protocol::{Reply, ReplyView, Request, RequestView};
use crate::text::{
    contains_chars, decimal_text, hex_text, last_component, last_component_of,
    lemma_last_component_has_no_slash, push_digits, push_hex, push_str, string_from_chars,
    to_chars,
};
use crate::utils::maps::{parse_proc_maps, parse_text};
use crate::utils::types::{mapping_views, MappingView, MemoryMapping};
use std::path::{Path, PathBuf};
use vstd::prelude::*;

verus! {

/// Where the loader's own binary is found on the device.
pub const LINKER_PATH: &'static str = "/system/bin/linker64";

/// What the loader's mapping is recognized by in the region table.
pub const LINKER_NAME: &'static str = "linker64";

/// The highest load base of a 32-bit process; a library mapped at or below
/// it is not handled.
pub const MAX_32BIT_BASE: u64 = 0x7fffffff;

/// How many nodes a walk visits at most, unless told otherwise.
pub const DEFAULT_MAX_ITERATIONS: usize = 1000;

/// How many times the size of the mapped span a size found in the
/// loader's list may be before it is taken for garbage, unless told
/// otherwise.
pub const DEFAULT_SIZE_FACTOR: u64 = 10;

/// How many bytes the search for the raw pattern looks through, unless
/// told otherwise.
pub const DEFAULT_SEARCH_WINDOW: u64 = 256 * 1024;

/// Why a dump did not come about.
#[derive(Debug, Clone, Copy, PartialEq, Eq)]
pub enum SoDumperError {
    /// The repair tool could not be put in its place.
    FixerInstallFailed,
    /// The loader's binary could not be read.
    LinkerUnreadable,
    /// The loader's binary is no linkable object.
    LinkerMalformed,
    /// The loader's binary has no symbol for its list of loaded objects.
    SymbolNotFound,
    /// The process could not be stopped.
    PauseFailed,
    /// The region table could not be read.
    MapsUnreadable,
    /// The loader is not mapped in the process.
    LinkerNotMapped,
    /// Nothing in the process is backed by the target.
    TargetNotFound,
    /// The target is mapped where only a 32-bit process maps.
    UnsupportedArchitecture { base: u64 },
    /// The address of the loader's list does not fit in 64 bits.
    RegistryUnresolvable,
    /// The head of the loader's list could not be read.
    HeadUnreadable,
    /// The memory of the target could not be read.
    ImageUnreadable,
    /// The dump could not be written.
    WriteFailed,
}

/// `std::path::PathBuf`, which a dumper carries for its driver and never
/// looks into.
#[verifier::external_type_specification]
#[verifier::external_body]
pub struct ExPathBuf(PathBuf);

/// A component of a path that means the same wherever paths are written:
/// it holds neither a backslash nor a drive's colon.
pub open spec fn is_portable(name: Seq<char>) -> bool {
    forall|i: int| 0 <= i < name.len() ==> (#[trigger] name[i]) != '\\' && name[i] != ':'
}

/// A name that is a single component of a path wherever paths are
/// written: not empty, without a separator or a drive's colon, and
/// neither of the two names that stand for a directory itself.
pub open spec fn is_plain_name(name: Seq<char>) -> bool {
    &&& name.len() > 0
    &&& is_portable(name)
    &&& forall|i: int| 0 <= i < name.len() ==> (#[trigger] name[i]) != '/'
    &&& name != seq!['.']
    &&& name != seq!['.', '.']
}

/// The position of the last dot of a name; -1 if it has none.
pub open spec fn last_dot(name: Seq<char>) -> int
    decreases name.len(),
{
    if name.len() == 0 {
        -1
    } else if name.last() == '.' {
        name.len() - 1
    } else {
        last_dot(name.drop_last())
    }
}

/// A plain name without its extension: what stands before its last dot,
/// or all of it where it has no dot or only the one it begins with.
pub open spec fn stem_of(name: Seq<char>) -> Seq<char> {
    if last_dot(name) <= 0 {
        name
    } else {
        name.subrange(0, last_dot(name))
    }
}

/// `Path::file_stem` of a name, as text, and the empty text where the
/// name has no last component.
///
/// Of a plain name the standard library documents the outcome: the last
/// component is the name itself, and its stem is what stands before the
/// last dot, or all of it where there is no dot or only a leading one.
/// Nothing is claimed of any other name.
#[verifier::external_body]
fn file_stem_of(name: &str) -> (stem: String)
    ensures
        is_plain_name(name@) ==> stem@ == stem_of(name@),
{
    Path::new(name).file_stem().unwrap_or_default().to_string_lossy().into_owned()
}

/// The base name of a target: the last component of its name, which is
/// what follows the last slash, without its extension; empty where that
/// component is empty or stands for a directory itself.
pub open spec fn base_name_of(target: Seq<char>) -> Seq<char> {
    let file = last_component(target, 0);
    if file.len() == 0 || file == seq!['.'] || file == seq!['.', '.'] {
        Seq::empty()
    } else {
        stem_of(file)
    }
}

/// A dump of one native library out of one process.
pub struct SoDumper {
    /// The process that holds the library.
    pub target_pid: u32,
    /// What the library is recognized by in the region table.
    pub target_name: String,
    /// Where the driver puts the dump.
    pub output_dir: PathBuf,
    /// The tool that repairs the dump.
    pub sofixer: SoFixer,
    /// Whether the dump is repaired once it is written.
    pub auto_fix: bool,
    /// The name of the target without directory and extension, from which
    /// the dump takes its name: what follows the last slash of the name,
    /// up to its extension.
    pub base_name: String,
    /// The number of nodes of the loader's list that are visited at most.
    pub max_iterations: usize,
    /// How many times the size of the mapped span a size that was found
    /// may be.
    pub size_factor: u64,
    /// The number of bytes that the search for the raw pattern reads.
    pub search_window: u64,
}

/// The mathematical content of a [`SoDumper`]: everything but the output
/// directory.
pub struct SoDumperView {
    pub target_pid: u32,
    pub target_name: Seq<char>,
    pub fixer_path: Seq<char>,
    pub auto_fix: bool,
    pub base_name: Seq<char>,
    pub max_iterations: usize,
    pub size_factor: u64,
    pub search_window: u64,
}

impl View for SoDumper {
    type V = SoDumperView;

    open spec fn view(&self) -> SoDumperView {
        SoDumperView {
            target_pid: self.target_pid,
            target_name: self.target_name@,
            fixer_path: self.sofixer.binary_path@,
            auto_fix: self.auto_fix,
            base_name: self.base_name@,
            max_iterations: self.max_iterations,
            size_factor: self.size_factor,
            search_window: self.search_window,
        }
    }
}

/// The load base of the loader: where the first mapping that is backed by
/// the loader starts.
pub open spec fn linker_base(maps: Seq<MappingView>) -> Option<u64> {
    first_start(maps, LINKER_NAME@)
}

/// The mapped span of a 64-bit target, or why there is none.
pub open spec fn target_mapping(maps: Seq<MappingView>, name: Seq<char>) -> Result<
    (u64, u64),
    SoDumperError,
> {
    match target_span(maps, name) {
        Some((base, end)) => if base > MAX_32BIT_BASE {
            Ok((base, end))
        } else {
            Err(SoDumperError::UnsupportedArchitecture { base })
        },
        None => Err(SoDumperError::TargetNotFound),
    }
}

impl SoDumper {
    /// A dumper for the library `target_name` in the process `target_pid`,
    /// which repairs what it dumps and works within the usual limits. Its
    /// base name is the last component of the target name without its
    /// extension; only of a component with a backslash or a colon, which
    /// not every system reads alike, nothing is said.
    pub fn new(target_pid: u32, target_name: String, output_dir: PathBuf) -> (made: Result<
        SoDumper,
        core::convert::Infallible,
    >)
        ensures
            made is Ok,
            made->Ok_0.target_pid == target_pid,
            made->Ok_0.target_name@ == target_name@,
            made->Ok_0.output_dir == output_dir,
            made->Ok_0.sofixer.binary_path@ == "./SoFixer"@,
            made->Ok_0.auto_fix,
            is_portable(last_component(target_name@, 0)) ==> made->Ok_0.base_name@
                == base_name_of(target_name@),
            made->Ok_0.max_iterations == DEFAULT_MAX_ITERATIONS,
            made->Ok_0.size_factor == DEFAULT_SIZE_FACTOR,
            made->Ok_0.search_window == DEFAULT_SEARCH_WINDOW,
    {
        let sofixer = match SoFixer::new() {
            Ok(fixer) => fixer,
            Err(never) => {
                return Err(never);
            },
        };
        let path = to_chars(target_name.as_str());
        let file = last_component_of(path.as_slice());
        let names_no_file = file.len() == 0 || (file.len() == 1 && file[0] == '.') || (file.len()
            == 2 && file[0] == '.' && file[1] == '.');
        let base_name = if names_no_file {
            String::new()
        } else {
            proof {
                lemma_last_component_has_no_slash(path@, 0);
                assert(file@ != seq!['.']) by {
                    if file@ == seq!['.'] {
                        assert(seq!['.'].len() == 1);
                    }
                }
                assert(file@ != seq!['.', '.']) by {
                    if file@ == seq!['.', '.'] {
                        assert(seq!['.', '.'].len() == 2);
                        assert(seq!['.', '.'][0] == '.' && seq!['.', '.'][1] == '.');
                    }
                }
            }
            file_stem_of(string_from_chars(file.as_slice()).as_str())
        };
        proof {
            if names_no_file {
                if file.len() == 1 {
                    assert(file@ =~= seq!['.']);
                } else if file.len() == 2 {
                    assert(file@ =~= seq!['.', '.']);
                }
            }
        }
        Ok(
            SoDumper {
                target_pid,
                target_name,
                output_dir,
                sofixer,
                auto_fix: true,
                base_name,
                max_iterations: DEFAULT_MAX_ITERATIONS,
                size_factor: DEFAULT_SIZE_FACTOR,
                search_window: DEFAULT_SEARCH_WINDOW,
            },
        )
    }

    /// The request that puts the repair tool in its place.
    pub fn extract_sofixer(&self) -> (request: Request)
        ensures
            request@ == (RequestView::InstallFixer { path: self@.fixer_path, mode: FIXER_MODE }),
    {
        self.sofixer.extract()
    }

    /// Finds where the loader is mapped: the start of the first mapping of
    /// the table that is backed by the loader.
    pub fn get_linker_base(&self, mappings: &Vec<MemoryMapping>) -> (base: Result<
        u64,
        SoDumperError,
    >)
        ensures
            base == match linker_base(mapping_views(mappings@)) {
                Some(start) => Ok::<u64, SoDumperError>(start),
                None => Err(SoDumperError::LinkerNotMapped),
            },
    {
        let needle = to_chars(LINKER_NAME);
        let ghost maps = mapping_views(mappings@);
        let mut i: usize = 0;
        proof {
            assert(maps.skip(0) =~= maps);
        }
        while i < mappings.len()
            invariant
                i <= mappings.len(),
                needle@ == LINKER_NAME@,
                maps == mapping_views(mappings@),
                linker_base(maps) == first_start(maps.skip(i as int), LINKER_NAME@),
            decreases mappings.len() - i,
        {
            let path = to_chars(mappings[i].pathname.as_str());
            proof {
                assert(maps.skip(i as int)[0] == mappings@[i as int]@);
                assert(maps.skip(i as int).drop_first() =~= maps.skip(i + 1));
            }
            if contains_chars(path.as_slice(), needle.as_slice()) {
                return Ok(mappings[i].start);
            }
            i += 1;
        }
        proof {
            assert(maps.skip(i as int) =~= Seq::<MappingView>::empty());
        }
        Err(SoDumperError::LinkerNotMapped)
    }

    /// Finds the mapped span of the target: the lowest start and the
    /// highest end among the mappings that are backed by it. A target that
    /// is mapped where only a 32-bit process maps is refused.
    pub fn get_target_mapping(&self, mappings: &Vec<MemoryMapping>) -> (span: Result<
        (u64, u64),
        SoDumperError,
    >)
        ensures
            span == target_mapping(mapping_views(mappings@), self.target_name@),
    {
        let needle = to_chars(self.target_name.as_str());
        let ghost maps = mapping_views(mappings@);
        let mut found: Option<(u64, u64)> = None;
        let mut i: usize = 0;
        proof {
            assert(maps.take(0) =~= Seq::<MappingView>::empty());
        }
        while i < mappings.len()
            invariant
                i <= mappings.len(),
                needle@ == self.target_name@,
                maps == mapping_views(mappings@),
                found == target_span(maps.take(i as int), self.target_name@),
            decreases mappings.len() - i,
        {
            let path = to_chars(mappings[i].pathname.as_str());
            proof {
                assert(maps.take(i + 1).drop_last() =~= maps.take(i as int));
                assert(maps.take(i + 1).last() == mappings@[i as int]@);
            }
            if contains_chars(path.as_slice(), needle.as_slice()) {
                let start = mappings[i].start;
                let end = mappings[i].end;
                found = match found {
                    Some((base, top)) => Some(
                        (
                            if start < base {
                                start
                            } else {
                                base
                            },
                            if end > top {
                                end
                            } else {
                                top
                            },
                        ),
                    ),
                    None => Some((start, end)),
                };
            }
            i += 1;
        }
        proof {
            assert(maps.take(i as int) =~= maps);
        }
        match found {
            Some((base, end)) => if base > MAX_32BIT_BASE {
                Ok((base, end))
            } else {
                Err(SoDumperError::UnsupportedArchitecture { base })
            },
            None => Err(SoDumperError::TargetNotFound),
        }
    }
}

/// The name of the file that receives the dump: the base name of the
/// target, the load base in hexadecimal and the size in decimal.
pub open spec fn dump_name(stem: Seq<char>, base: u64, size: u64) -> Seq<char> {
    stem + "_"@ + hex_text(base) + "_"@ + decimal_text(size) + "_dump.so"@
}

/// The path of the repaired file that belongs to a dump.
pub open spec fn fixed_path(dump_path: Seq<char>) -> Seq<char> {
    dump_path + ".fix.so"@
}

/// Names the file that receives the dump of `size` bytes from `base`.
pub fn dump_file_name(stem: &str, base: u64, size: u64) -> (name: String)
    ensures
        name@ == dump_name(stem@, base, size),
{
    let mut out: Vec<char> = Vec::new();
    push_str(&mut out, stem);
    push_str(&mut out, "_");
    push_hex(&mut out, base);
    push_str(&mut out, "_");
    push_digits(&mut out, size, 10);
    push_str(&mut out, "_dump.so");
    proof {
        assert(out@ =~= dump_name(stem@, base, size));
    }
    string_from_chars(out.as_slice())
}

/// Names the repaired file that belongs to the dump at `dump_path`.
pub fn fixed_file_path(dump_path: &str) -> (path: String)
    ensures
        path@ == fixed_path(dump_path@),
{
    let mut out: Vec<char> = Vec::new();
    push_str(&mut out, dump_path);
    push_str(&mut out, ".fix.so");
    proof {
        assert(out@ =~= fixed_path(dump_path@));
    }
    string_from_chars(out.as_slice())
}

/// What a dump is waiting for.
#[derive(Debug, Clone, Copy, PartialEq, Eq)]
pub enum DumpStage {
    /// Nothing: the dump has not begun.
    Idle,
    /// The repair tool being put in its place.
    Installing,
    /// The bytes of the loader's binary.
    LoadingLinker,
    /// The process being stopped.
    Pausing { solist_offset: u64 },
    /// The region table of the stopped process.
    Mapping { solist_offset: u64 },
    /// The head pointer of the loader's list.
    ReadingHead { base: u64, raw_size: u64 },
    /// A node of the loader's list.
    Walking { base: u64, raw_size: u64, head: u64, walk: SoinfoWalk },
    /// The memory at the head of the list, for the raw search.
    Searching { base: u64, raw_size: u64 },
    /// The bytes of the target.
    ReadingImage { base: u64, size: u64 },
    /// The dump being written.
    Writing { base: u64 },
    /// The dump being repaired.
    Repairing,
    /// The process being let run again.
    Resuming { outcome: Result<(), SoDumperError> },
    /// Nothing: the dump is over. `resumed` says how letting the process
    /// run again went; it holds nothing if the process was never stopped.
    Finished { outcome: Result<(), SoDumperError>, resumed: Option<bool> },
}

impl SoDumperView {
    /// The end of a dump during which the process was never stopped.
    pub open spec fn finish(self, outcome: Result<(), SoDumperError>) -> (DumpStage, RequestView) {
        (DumpStage::Finished { outcome, resumed: None }, RequestView::Finish)
    }

    /// The way out of the stopped process: whatever the dump has come to,
    /// the process is let run again before the outcome is handed out.
    pub open spec fn release(self, outcome: Result<(), SoDumperError>) -> (
        DumpStage,
        RequestView,
    ) {
        (DumpStage::Resuming { outcome }, RequestView::Resume { pid: self.target_pid as i32 })
    }

    /// The first step after the repair tool is in its place, or was never
    /// asked for.
    pub open spec fn load_linker(self) -> (DumpStage, RequestView) {
        (DumpStage::LoadingLinker, RequestView::ReadFile { path: LINKER_PATH@ })
    }

    /// The raw search, which takes over where the walk has found nothing.
    pub open spec fn fall_back(self, base: u64, raw_size: u64, head: u64) -> (
        DumpStage,
        RequestView,
    ) {
        (
            DumpStage::Searching { base, raw_size },
            RequestView::ReadMemory { address: head, length: self.search_window },
        )
    }

    /// The next node of the walk, or the raw search where the walk asks
    /// for no further node.
    pub open spec fn walk_on(self, base: u64, raw_size: u64, head: u64, walk: SoinfoWalk) -> (
        DumpStage,
        RequestView,
    ) {
        match walk.wanted() {
            Some(address) => (
                DumpStage::Walking { base, raw_size, head, walk },
                RequestView::ReadMemory { address, length: SOINFO_RECORD_SIZE },
            ),
            None => self.fall_back(base, raw_size, head),
        }
    }

    /// The reading of the target once its size is settled.
    pub open spec fn read_image(self, base: u64, size: u64) -> (DumpStage, RequestView) {
        (
            DumpStage::ReadingImage { base, size },
            RequestView::ReadMemory { address: base, length: size },
        )
    }

    /// What follows from the region table of the stopped process.
    pub open spec fn mapped(self, solist_offset: u64, maps: Seq<MappingView>) -> (
        DumpStage,
        RequestView,
    ) {
        match linker_base(maps) {
            Some(loader) => match target_mapping(maps, self.target_name) {
                Ok((base, end)) => if loader + solist_offset <= u64::MAX {
                    (
                        DumpStage::ReadingHead { base, raw_size: span_size(base, end) },
                        RequestView::ReadMemory {
                            address: (loader + solist_offset) as u64,
                            length: 8,
                        },
                    )
                } else {
                    self.release(Err(SoDumperError::RegistryUnresolvable))
                },
                Err(e) => self.release(Err(e)),
            },
            None => self.release(Err(SoDumperError::LinkerNotMapped)),
        }
    }

    /// The stage after a reply, and the request that follows.
    pub open spec fn advanced(self, stage: DumpStage, reply: ReplyView) -> (
        DumpStage,
        RequestView,
    ) {
        match stage {
            DumpStage::Idle => if self.auto_fix {
                (
                    DumpStage::Installing,
                    RequestView::InstallFixer { path: self.fixer_path, mode: FIXER_MODE },
                )
            } else {
                self.load_linker()
            },
            DumpStage::Installing => if reply.succeeded() {
                self.load_linker()
            } else {
                self.finish(Err(SoDumperError::FixerInstallFailed))
            },
            DumpStage::LoadingLinker => match reply {
                ReplyView::Bytes(image) => match solist_offset(image) {
                    Ok(solist_offset) => (
                        DumpStage::Pausing { solist_offset },
                        RequestView::Pause { pid: self.target_pid as i32 },
                    ),
                    Err(e) => self.finish(Err(e)),
                },
                _ => self.finish(Err(SoDumperError::LinkerUnreadable)),
            },
            DumpStage::Pausing { solist_offset } => if reply.succeeded() {
                (DumpStage::Mapping { solist_offset }, RequestView::ReadMaps { pid: self.target_pid as i32 })
            } else {
                self.finish(Err(SoDumperError::PauseFailed))
            },
            DumpStage::Mapping { solist_offset } => match reply {
                ReplyView::Text(table) => self.mapped(solist_offset, parse_text(table)),
                ReplyView::Regions(maps) => self.mapped(solist_offset, maps),
                _ => self.release(Err(SoDumperError::MapsUnreadable)),
            },
            DumpStage::ReadingHead { base, raw_size } => match reply.exact_bytes(8) {
                Some(data) => {
                    let head = le_u64(data) as u64;
                    self.walk_on(
                        base,
                        raw_size,
                        head,
                        SoinfoWalk { current: head, steps: 0, cap: self.max_iterations, target: base },
                    )
                },
                None => self.release(Err(SoDumperError::HeadUnreadable)),
            },
            DumpStage::Walking { base, raw_size, head, walk } => {
                let record = match reply.exact_bytes(SOINFO_RECORD_SIZE as int) {
                    Some(data) => soinfo_of(data),
                    None => None,
                };
                match walk.fed(record) {
                    WalkStep::Found(size) => self.read_image(
                        base,
                        plausible_size(size, raw_size, self.size_factor),
                    ),
                    WalkStep::Continue(next) => self.walk_on(base, raw_size, head, next),
                    WalkStep::Lost => self.fall_back(base, raw_size, head),
                }
            },
            DumpStage::Searching { base, raw_size } => {
                let found = match reply.exact_bytes(self.search_window as int) {
                    Some(data) => searched_size(data, base),
                    None => None,
                };
                match found {
                    Some(size) => self.read_image(
                        base,
                        plausible_size(size, raw_size, self.size_factor),
                    ),
                    None => self.read_image(base, raw_size),
                }
            },
            DumpStage::ReadingImage { base, size } => match reply.exact_bytes(size as int) {
                Some(data) => (
                    DumpStage::Writing { base },
                    RequestView::WriteFile { name: dump_name(self.base_name, base, size), data },
                ),
                None => self.release(Err(SoDumperError::ImageUnreadable)),
            },
            DumpStage::Writing { base } => match reply {
                ReplyView::Text(path) => if self.auto_fix {
                    (
                        DumpStage::Repairing,
                        RequestView::RunFixer {
                            program: self.fixer_path,
                            args: fixer_args(base, path, fixed_path(path)),
                        },
                    )
                } else {
                    self.release(Ok(()))
                },
                _ => self.release(Err(SoDumperError::WriteFailed)),
            },
            DumpStage::Repairing => self.release(Ok(())),
            DumpStage::Resuming { outcome } => (
                DumpStage::Finished { outcome, resumed: Some(reply.succeeded()) },
                RequestView::Finish,
            ),
            DumpStage::Finished { outcome, resumed } => (
                DumpStage::Finished { outcome, resumed },
                RequestView::Finish,
            ),
        }
    }
}

impl SoDumper {
    fn finish(&self, outcome: Result<(), SoDumperError>) -> (step: (DumpStage, Request))
        ensures
            (step.0, step.1@) == self@.finish(outcome),
    {
        (DumpStage::Finished { outcome, resumed: None }, Request::Finish)
    }

    fn release(&self, outcome: Result<(), SoDumperError>) -> (step: (DumpStage, Request))
        ensures
            (step.0, step.1@) == self@.release(outcome),
    {
        (DumpStage::Resuming { outcome }, Request::Resume { pid: self.target_pid as i32 })
    }

    fn load_linker(&self) -> (step: (DumpStage, Request))
        ensures
            (step.0, step.1@) == self@.load_linker(),
    {
        (DumpStage::LoadingLinker, Request::ReadFile { path: LINKER_PATH.to_owned() })
    }

    fn fall_back(&self, base: u64, raw_size: u64, head: u64) -> (step: (DumpStage, Request))
        ensures
            (step.0, step.1@) == self@.fall_back(base, raw_size, head),
    {
        (
            DumpStage::Searching { base, raw_size },
            Request::ReadMemory { address: head, length: self.search_window },
        )
    }

    fn walk_on(&self, base: u64, raw_size: u64, head: u64, walk: SoinfoWalk) -> (step: (
        DumpStage,
        Request,
    ))
        ensures
            (step.0, step.1@) == self@.walk_on(base, raw_size, head, walk),
    {
        match walk.next_read() {
            Some(address) => (
                DumpStage::Walking { base, raw_size, head, walk },
                Request::ReadMemory { address, length: SOINFO_RECORD_SIZE },
            ),
            None => self.fall_back(base, raw_size, head),
        }
    }

    fn read_image(&self, base: u64, size: u64) -> (step: (DumpStage, Request))
        ensures
            (step.0, step.1@) == self@.read_image(base, size),
    {
        (DumpStage::ReadingImage { base, size }, Request::ReadMemory { address: base, length: size })
    }

    /// Decides what follows from the region table of the stopped process:
    /// the read of the list's head pointer, or the way out with the reason.
    pub fn locate(&self, solist_offset: u64, mappings: &Vec<MemoryMapping>) -> (step: (
        DumpStage,
        Request,
    ))
        ensures
            (step.0, step.1@) == self@.mapped(solist_offset, mapping_views(mappings@)),
    {
        let loader = match self.get_linker_base(mappings) {
            Ok(loader) => loader,
            Err(e) => {
                return self.release(Err(e));
            },
        };
        let (base, end) = match self.get_target_mapping(mappings) {
            Ok(span) => span,
            Err(e) => {
                return self.release(Err(e));
            },
        };
        match loader.checked_add(solist_offset) {
            Some(address) => (
                DumpStage::ReadingHead { base, raw_size: mapped_size(base, end) },
                Request::ReadMemory { address, length: 8 },
            ),
            None => self.release(Err(SoDumperError::RegistryUnresolvable)),
        }
    }

    /// Begins a dump and hands out its first request.
    pub fn dump(&self) -> (step: (DumpStage, Request))
        ensures
            (step.0, step.1@) == self@.advanced(DumpStage::Idle, ReplyView::Done),
    {
        if self.auto_fix {
            (DumpStage::Installing, self.extract_sofixer())
        } else {
            self.load_linker()
        }
    }

    /// Takes the reply to the request that was handed out last, and hands
    /// out the stage the dump has come to and the next request.
    pub fn advance(&self, stage: DumpStage, reply: Reply) -> (step: (DumpStage, Request))
        ensures
            (step.0, step.1@) == self@.advanced(stage, reply@),
    {
        match stage {
            DumpStage::Idle => self.dump(),
            DumpStage::Installing => if reply.is_success() {
                self.load_linker()
            } else {
                self.finish(Err(SoDumperError::FixerInstallFailed))
            },
            DumpStage::LoadingLinker => match reply {
                Reply::Bytes(image) => match get_solist_offset(image.as_slice()) {
                    Ok(solist_offset) => (
                        DumpStage::Pausing { solist_offset },
                        Request::Pause { pid: self.target_pid as i32 },
                    ),
                    Err(e) => self.finish(Err(e)),
                },
                _ => self.finish(Err(SoDumperError::LinkerUnreadable)),
            },
            DumpStage::Pausing { solist_offset } => if reply.is_success() {
                (DumpStage::Mapping { solist_offset }, Request::ReadMaps { pid: self.target_pid as i32 })
            } else {
                self.finish(Err(SoDumperError::PauseFailed))
            },
            DumpStage::Mapping { solist_offset } => match reply {
                Reply::Text(table) => {
                    let mappings = parse_proc_maps(table.as_str());
                    self.locate(solist_offset, &mappings)
                },
                Reply::Regions(mappings) => self.locate(solist_offset, &mappings),
                _ => self.release(Err(SoDumperError::MapsUnreadable)),
            },
            DumpStage::ReadingHead { base, raw_size } => match reply.into_exact_bytes(8) {
                Some(data) => match get_solist_head(data.as_slice()) {
                    Some(head) => self.walk_on(
                        base,
                        raw_size,
                        head,
                        SoinfoWalk::new(head, base, self.max_iterations),
                    ),
                    None => self.release(Err(SoDumperError::HeadUnreadable)),
                },
                None => self.release(Err(SoDumperError::HeadUnreadable)),
            },
            DumpStage::Walking { base, raw_size, head, walk } => {
                let record = match reply.into_exact_bytes(SOINFO_RECORD_SIZE) {
                    Some(data) => parse_soinfo(data.as_slice()),
                    None => None,
                };
                match walk.feed(record) {
                    WalkStep::Found(size) => self.read_image(
                        base,
                        clamp_size(size, raw_size, self.size_factor),
                    ),
                    WalkStep::Continue(next) => self.walk_on(base, raw_size, head, next),
                    WalkStep::Lost => self.fall_back(base, raw_size, head),
                }
            },
            DumpStage::Searching { base, raw_size } => {
                let found = match reply.into_exact_bytes(self.search_window) {
                    Some(data) => search_soinfo_chain(data.as_slice(), base),
                    None => None,
                };
                match found {
                    Some(size) => self.read_image(
                        base,
                        clamp_size(size, raw_size, self.size_factor),
                    ),
                    None => self.read_image(base, raw_size),
                }
            },
            DumpStage::ReadingImage { base, size } => match reply.into_exact_bytes(size) {
                Some(data) => (
                    DumpStage::Writing { base },
                    Request::WriteFile {
                        name: dump_file_name(self.base_name.as_str(), base, size),
                        data,
                    },
                ),
                None => self.release(Err(SoDumperError::ImageUnreadable)),
            },
            DumpStage::Writing { base } => match reply {
                Reply::Text(path) => if self.auto_fix {
                    let fixed = fixed_file_path(path.as_str());
                    (
                        DumpStage::Repairing,
                        self.sofixer.fix_so(true, base, path.as_str(), fixed.as_str()),
                    )
                } else {
                    self.release(Ok(()))
                },
                _ => self.release(Err(SoDumperError::WriteFailed)),
            },
            DumpStage::Repairing => self.release(Ok(())),
            DumpStage::Resuming { outcome } => (
                DumpStage::Finished { outcome, resumed: Some(reply.is_success()) },
                Request::Finish,
            ),
            DumpStage::Finished { outcome, resumed } => (
                DumpStage::Finished { outcome, resumed },
                Request::Finish,
            ),
        }
    }
}

impl SoDumperError {
    /// What the error says, in words; `target` is the name of the library
    /// that was to be dumped.
    pub open spec fn text(self, target: Seq<char>) -> Seq<char> {
        match self {
            SoDumperError::FixerInstallFailed => "Could not extract SoFixer"@,
            SoDumperError::LinkerUnreadable => "Could not read linker64"@,
            SoDumperError::LinkerMalformed => "Could not parse linker64"@,
            SoDumperError::SymbolNotFound => "Could not find solist symbol in linker64"@,
            SoDumperError::PauseFailed => "Could not stop the process"@,
            SoDumperError::MapsUnreadable => "Could not read process maps"@,
            SoDumperError::LinkerNotMapped => "Could not find linker64 in process maps"@,
            SoDumperError::TargetNotFound => "Could not find target "@ + target
                + " in process maps"@,
            SoDumperError::UnsupportedArchitecture { base } => "Target SO is 32-bit (base: "@
                + hex_text(base)
                + "), only 64-bit SO files are supported. 32-bit SO files have base addresses below 0x80000000."@,
            SoDumperError::RegistryUnresolvable => "Could not resolve the address of solist"@,
            SoDumperError::HeadUnreadable => "Could not read solist head"@,
            SoDumperError::ImageUnreadable => "Could not read target memory"@,
            SoDumperError::WriteFailed => "Could not write SO dump"@,
        }
    }

    /// Says in words what went wrong.
    pub fn message(&self, target: &str) -> (message: String)
        ensures
            message@ == self.text(target@),
    {
        let mut out: Vec<char> = Vec::new();
        match self {
            SoDumperError::FixerInstallFailed => push_str(&mut out, "Could not extract SoFixer"),
            SoDumperError::LinkerUnreadable => push_str(&mut out, "Could not read linker64"),
            SoDumperError::LinkerMalformed => push_str(&mut out, "Could not parse linker64"),
            SoDumperError::SymbolNotFound => push_str(
                &mut out,
                "Could not find solist symbol in linker64",
            ),
            SoDumperError::PauseFailed => push_str(&mut out, "Could not stop the process"),
            SoDumperError::MapsUnreadable => push_str(&mut out, "Could not read process maps"),
            SoDumperError::LinkerNotMapped => push_str(
                &mut out,
                "Could not find linker64 in process maps",
            ),
            SoDumperError::TargetNotFound => {
                push_str(&mut out, "Could not find target ");
                push_str(&mut out, target);
                push_str(&mut out, " in process maps");
            },
            SoDumperError::UnsupportedArchitecture { base } => {
                push_str(&mut out, "Target SO is 32-bit (base: ");
                push_hex(&mut out, *base);
                push_str(
                    &mut out,
                    "), only 64-bit SO files are supported. 32-bit SO files have base addresses below 0x80000000.",
                );
            },
            SoDumperError::RegistryUnresolvable => push_str(
                &mut out,
                "Could not resolve the address of solist",
            ),
            SoDumperError::HeadUnreadable => push_str(&mut out, "Could not read solist head"),
            SoDumperError::ImageUnreadable => push_str(&mut out, "Could not read target memory"),
            SoDumperError::WriteFailed => push_str(&mut out, "Could not write SO dump"),
        }
        proof {
            assert(out@ =~= self.text(target@));
        }
        string_from_chars(out.as_slice())
    }
}

} // verus!
