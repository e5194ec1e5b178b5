//! Scanning a process for bytecode images: one session from the stopping
//! of the process to its running again.

use super::dexheader::{fix_dex_header, header_fixed, DEX_FIXED_REGION};
use super::dexregions::{
    dex_file_name, dex_name, dex_offsets, find_dex_offsets, is_candidate, is_candidate_region,
    lacks_header, region_lacks_header,
};
use super::dexsize::SizeProbe;
use crate::protocol::{Reply, ReplyView, Request, RequestView};
use crate::text::{digits_of, push_digits, push_str, string_from_chars};
use crate::utils::types::{mapping_views, MappingView, MemoryMapping};
use vstd::prelude::*;

verus! {

/// What can go wrong around a scan for bytecode images.
#[derive(Debug)]
pub enum DexDumperError {
    /// The memory of the process with this id could not be opened.
    ProcessNotFound(i32),
    /// The process could not be stopped, or its regions not be listed.
    FailedToAttach,
    /// The process could not be let run again.
    FailedToDetach,
    /// The file for an image could not be created.
    FileCreationFailed,
    /// Something else went wrong with a file; the text says what.
    IoError(String),
}

/// What a scan is waiting for.
#[derive(Debug, Clone, Copy, PartialEq, Eq)]
pub enum ScanStage {
    /// Nothing: the scan has not begun.
    Idle,
    /// The process being stopped.
    Stopping,
    /// The region table of the stopped process.
    Listing,
    /// The bytes of the current region.
    Region,
    /// A header field of the image at `address`; `fix` marks the recovery
    /// of an image without a header, which starts at the region's start.
    Probing { address: u64, probe: SizeProbe, fix: bool },
    /// The `size` bytes of the image at `address`, whose header declares
    /// `declared` bytes.
    Image { address: u64, declared: u32, size: u32, fix: bool },
    /// The writing of an image.
    Saving,
    /// The process being let run again; `attached` says whether the
    /// region table was read.
    Releasing { attached: bool },
    /// Nothing: the scan is over. `attached` says whether the process was
    /// stopped and its region table read; `resumed` says how letting the
    /// process run again went, and holds nothing if it was never stopped.
    Finished { attached: bool, resumed: Option<bool> },
}

/// A scan of a process for bytecode images.
///
/// The process is stopped, its regions are listed, and the scan goes
/// through them in the order of the region table. In each region that
/// qualifies it tries every place where a signature was found, in
/// ascending order, and then, if the region does not begin like an image,
/// the region's start. Whatever fails ends the attempt it belongs to and
/// nothing else. At the end the process is let run again.
pub struct DexDumper {
    /// The process that is scanned.
    pub pid: i32,
    /// The regions of the process, as listed after it was stopped.
    pub maps: Vec<MemoryMapping>,
    /// The position of the current region in `maps`.
    pub region: usize,
    /// Where signatures begin in the current region, counted from its
    /// start.
    pub matches: Vec<usize>,
    /// The position in `matches` of the signature that is tried next.
    pub next_match: usize,
    /// The current region does not begin like an image, and its start has
    /// not been tried yet.
    pub headerless: bool,
    /// What the scan is waiting for.
    pub stage: ScanStage,
}

/// The mathematical content of a [`DexDumper`].
pub struct DexDumperView {
    pub pid: i32,
    pub maps: Seq<MappingView>,
    pub region: usize,
    pub matches: Seq<usize>,
    pub next_match: usize,
    pub headerless: bool,
    pub stage: ScanStage,
}

impl View for DexDumper {
    type V = DexDumperView;

    open spec fn view(&self) -> DexDumperView {
        DexDumperView {
            pid: self.pid,
            maps: mapping_views(self.maps@),
            region: self.region,
            matches: self.matches@,
            next_match: self.next_match,
            headerless: self.headerless,
            stage: self.stage,
        }
    }
}

/// The first region at or after `from` that is searched; the number of
/// regions if there is none.
pub open spec fn next_candidate(maps: Seq<MappingView>, from: int) -> int
    decreases maps.len() - from,
{
    if from < 0 || from >= maps.len() {
        maps.len() as int
    } else if is_candidate(maps[from]) {
        from
    } else {
        next_candidate(maps, from + 1)
    }
}

/// The scan is inside a region at this stage.
pub open spec fn in_region(stage: ScanStage) -> bool {
    match stage {
        ScanStage::Region => true,
        ScanStage::Probing { .. } => true,
        ScanStage::Image { .. } => true,
        ScanStage::Saving => true,
        _ => false,
    }
}

/// A reply as a driver can give it: a region table has no more entries
/// than a list can hold, and neither have the signatures in the bytes of
/// a region.
pub open spec fn realizable(reply: ReplyView) -> bool {
    &&& reply matches ReplyView::Regions(maps) ==> maps.len() <= usize::MAX
    &&& reply matches ReplyView::Bytes(data) ==> dex_offsets(data).len() <= usize::MAX
}

impl DexDumperView {
    /// The scan stands inside the region table while it is in a region,
    /// and inside the list of matches.
    pub open spec fn wf(self) -> bool {
        &&& in_region(self.stage) ==> self.region < self.maps.len()
        &&& self.next_match <= self.matches.len()
        &&& self.maps.len() <= usize::MAX
        &&& self.matches.len() <= usize::MAX
    }

    /// The way out of the stopped process: the process is let run again
    /// before the scan is over.
    pub open spec fn release(self, attached: bool) -> (DexDumperView, RequestView) {
        (
            DexDumperView {
                matches: Seq::empty(),
                next_match: 0,
                headerless: false,
                stage: ScanStage::Releasing { attached },
                ..self
            },
            RequestView::Resume { pid: self.pid },
        )
    }

    /// Moves on to the first region at or after `index` that is searched
    /// and asks for its bytes; leaves the process if there is none.
    pub open spec fn enter(self, index: int) -> (DexDumperView, RequestView) {
        let at = next_candidate(self.maps, index);
        if 0 <= at < self.maps.len() {
            (
                DexDumperView {
                    region: at as usize,
                    matches: Seq::empty(),
                    next_match: 0,
                    headerless: false,
                    stage: ScanStage::Region,
                    ..self
                },
                RequestView::ReadMemory {
                    address: self.maps[at].start,
                    length: self.maps[at].size() as u64,
                },
            )
        } else {
            (DexDumperView { region: self.maps.len() as usize, ..self }).release(true)
        }
    }

    /// Begins the probe of the image at `address`, if its first field has
    /// an address at all.
    pub open spec fn probe_at(self, address: u64, fix: bool) -> Option<
        (DexDumperView, RequestView),
    > {
        let probe = SizeProbe::FileSize { header: address };
        match probe.wanted() {
            Some(field) => Some(
                (
                    DexDumperView { stage: ScanStage::Probing { address, probe, fix }, ..self },
                    RequestView::ReadMemory { address: field, length: 4 },
                ),
            ),
            None => None,
        }
    }

    /// Goes on within the current region with the match of index `k`:
    /// the first match from there on whose probe can begin, then the start
    /// of the region if it lacks a header, then the next region.
    pub open spec fn proceed(self, k: int) -> (DexDumperView, RequestView)
        decreases self.matches.len() - k,
    {
        let start = self.maps[self.region as int].start;
        if 0 <= k < self.matches.len() {
            let address = start + self.matches[k];
            let begun = if address <= u64::MAX {
                (DexDumperView { next_match: (k + 1) as usize, ..self }).probe_at(
                    address as u64,
                    false,
                )
            } else {
                None
            };
            match begun {
                Some(step) => step,
                None => self.proceed(k + 1),
            }
        } else {
            let begun = if self.headerless {
                (DexDumperView {
                    next_match: self.matches.len() as usize,
                    headerless: false,
                    ..self
                }).probe_at(start, true)
            } else {
                None
            };
            match begun {
                Some(step) => step,
                None => self.enter(self.region + 1),
            }
        }
    }

    /// The state after a reply, and the request that follows.
    pub open spec fn advanced(self, reply: ReplyView) -> (DexDumperView, RequestView) {
        match self.stage {
            ScanStage::Idle => (
                DexDumperView { stage: ScanStage::Stopping, ..self },
                RequestView::Pause { pid: self.pid },
            ),
            ScanStage::Stopping => if reply.succeeded() {
                (
                    DexDumperView { stage: ScanStage::Listing, ..self },
                    RequestView::ReadMaps { pid: self.pid },
                )
            } else {
                (
                    DexDumperView {
                        stage: ScanStage::Finished { attached: false, resumed: None },
                        ..self
                    },
                    RequestView::Finish,
                )
            },
            ScanStage::Listing => match reply {
                ReplyView::Regions(maps) => (DexDumperView { maps, ..self }).enter(0),
                _ => self.release(false),
            },
            ScanStage::Region => match reply.exact_bytes(self.maps[self.region as int].size()) {
                Some(data) => (DexDumperView {
                    matches: dex_offsets(data),
                    next_match: 0,
                    headerless: lacks_header(data),
                    ..self
                }).proceed(0),
                None => self.enter(self.region + 1),
            },
            ScanStage::Probing { address, probe, fix } => {
                let next = probe.fed(reply.word());
                match next.wanted() {
                    Some(field) => (
                        DexDumperView {
                            stage: ScanStage::Probing { address, probe: next, fix },
                            ..self
                        },
                        RequestView::ReadMemory { address: field, length: 4 },
                    ),
                    None => match next.sizes() {
                        Some((declared, size)) => (
                            DexDumperView {
                                stage: ScanStage::Image { address, declared, size, fix },
                                ..self
                            },
                            RequestView::ReadMemory { address, length: size as u64 },
                        ),
                        None => self.proceed(self.next_match as int),
                    },
                }
            },
            ScanStage::Image { address, size, fix, .. } => match reply.exact_bytes(size as int) {
                Some(data) => if fix && data.len() < DEX_FIXED_REGION {
                    self.proceed(self.next_match as int)
                } else {
                    (
                        DexDumperView { stage: ScanStage::Saving, ..self },
                        RequestView::WriteFile {
                            name: dex_name(address),
                            data: if fix {
                                header_fixed(data)
                            } else {
                                data
                            },
                        },
                    )
                },
                None => self.proceed(self.next_match as int),
            },
            ScanStage::Saving => self.proceed(self.next_match as int),
            ScanStage::Releasing { attached } => (
                DexDumperView {
                    stage: ScanStage::Finished { attached, resumed: Some(reply.succeeded()) },
                    ..self
                },
                RequestView::Finish,
            ),
            ScanStage::Finished { .. } => (self, RequestView::Finish),
        }
    }

    /// How letting the process run again went, once the scan is over;
    /// nothing if the process was never stopped.
    pub open spec fn release_outcome(self) -> Option<Result<(), DexDumperError>> {
        match self.stage {
            ScanStage::Finished { resumed: Some(ok), .. } => Some(
                if ok {
                    Ok(())
                } else {
                    Err(DexDumperError::FailedToDetach)
                },
            ),
            _ => None,
        }
    }

    /// What the scan has come to, once it is over: it has failed if the
    /// process could not be stopped or its regions could not be listed.
    /// That the process could not be let run again changes nothing in it.
    pub open spec fn outcome(self) -> Option<Result<(), DexDumperError>> {
        match self.stage {
            ScanStage::Finished { attached, .. } => Some(
                if attached {
                    Ok(())
                } else {
                    Err(DexDumperError::FailedToAttach)
                },
            ),
            _ => None,
        }
    }
}

impl DexDumper {
    /// A dumper for the process `pid`, given whether the memory of the
    /// process could be opened.
    pub fn new(pid: i32, memory_opened: bool) -> (made: Result<DexDumper, DexDumperError>)
        ensures
            match made {
                Ok(d) => memory_opened && d@ == (DexDumperView {
                    pid,
                    maps: Seq::empty(),
                    region: 0,
                    matches: Seq::empty(),
                    next_match: 0,
                    headerless: false,
                    stage: ScanStage::Idle,
                }) && d@.wf(),
                Err(e) => !memory_opened && e == DexDumperError::ProcessNotFound(pid),
            },
    {
        if !memory_opened {
            return Err(DexDumperError::ProcessNotFound(pid));
        }
        let d = DexDumper {
            pid,
            maps: Vec::new(),
            region: 0,
            matches: Vec::new(),
            next_match: 0,
            headerless: false,
            stage: ScanStage::Idle,
        };
        proof {
            assert(d@.maps =~= Seq::<MappingView>::empty());
        }
        Ok(d)
    }

    /// Whether the scan stands inside its region table and its list of
    /// matches, as every scan does that was made by [`DexDumper::new`] and
    /// moved by its own steps.
    pub fn is_well_formed(&self) -> (ok: bool)
        ensures
            ok == self@.wf(),
    {
        let inside = match self.stage {
            ScanStage::Region => true,
            ScanStage::Probing { .. } => true,
            ScanStage::Image { .. } => true,
            ScanStage::Saving => true,
            _ => false,
        };
        let count = self.maps.len();
        let places = self.matches.len();
        proof {
            assert(self@.maps.len() == count);
        }
        (!inside || self.region < count) && self.next_match <= places
    }

    /// The request that stops the process.
    pub fn attach_process(&self) -> (request: Request)
        ensures
            request@ == (RequestView::Pause { pid: self.pid }),
    {
        Request::Pause { pid: self.pid }
    }

    /// The request that lets the process run again.
    pub fn detach_process(&self) -> (request: Request)
        ensures
            request@ == (RequestView::Resume { pid: self.pid }),
    {
        Request::Resume { pid: self.pid }
    }

    /// What the scan has come to, once it is over.
    pub fn result(&self) -> (outcome: Option<Result<(), DexDumperError>>)
        ensures
            outcome == self@.outcome(),
    {
        match self.stage {
            ScanStage::Finished { attached, .. } => Some(
                if attached {
                    Ok(())
                } else {
                    Err(DexDumperError::FailedToAttach)
                },
            ),
            _ => None,
        }
    }

    /// How letting the process run again went, once the scan is over;
    /// nothing if the process was never stopped.
    pub fn detached(&self) -> (outcome: Option<Result<(), DexDumperError>>)
        ensures
            outcome == self@.release_outcome(),
    {
        match self.stage {
            ScanStage::Finished { resumed: Some(ok), .. } => Some(
                if ok {
                    Ok(())
                } else {
                    Err(DexDumperError::FailedToDetach)
                },
            ),
            _ => None,
        }
    }

    fn release(&mut self, attached: bool) -> (request: Request)
        requires
            old(self)@.wf(),
        ensures
            final(self)@.wf(),
            (final(self)@, request@) == old(self)@.release(attached),
    {
        self.matches = Vec::new();
        self.next_match = 0;
        self.headerless = false;
        self.stage = ScanStage::Releasing { attached };
        proof {
            assert(self@.matches =~= Seq::<usize>::empty());
        }
        self.detach_process()
    }

    fn enter(&mut self, index: usize) -> (request: Request)
        requires
            old(self)@.wf(),
            index <= old(self)@.maps.len(),
        ensures
            final(self)@.wf(),
            (final(self)@, request@) == old(self)@.enter(index as int),
    {
        let mut at: usize = index;
        while at < self.maps.len() && !is_candidate_region(&self.maps[at])
            invariant
                *self == *old(self),
                index <= at <= self@.maps.len(),
                next_candidate(self@.maps, index as int) == next_candidate(self@.maps, at as int),
            decreases self@.maps.len() - at,
        {
            proof {
                assert(self@.maps[at as int] == self.maps@[at as int]@);
            }
            at += 1;
        }
        if at < self.maps.len() {
            proof {
                assert(self@.maps[at as int] == self.maps@[at as int]@);
            }
            self.matches = Vec::new();
            self.next_match = 0;
            self.headerless = false;
            self.region = at;
            self.stage = ScanStage::Region;
            let start = self.maps[at].start;
            let end = self.maps[at].end;
            let length = if end >= start {
                end - start
            } else {
                0
            };
            proof {
                assert(self@.matches =~= Seq::<usize>::empty());
            }
            Request::ReadMemory { address: start, length }
        } else {
            self.stage = ScanStage::Releasing { attached: true };
            self.region = at;
            self.release(true)
        }
    }

    fn proceed(&mut self) -> (request: Request)
        requires
            old(self)@.wf(),
            in_region(old(self).stage),
        ensures
            final(self)@.wf(),
            (final(self)@, request@) == old(self)@.proceed(old(self).next_match as int),
    {
        let start = self.maps[self.region].start;
        proof {
            assert(self@.maps[self.region as int] == self.maps@[self.region as int]@);
        }
        let mut k: usize = self.next_match;
        while k < self.matches.len()
            invariant
                *self == *old(self),
                self@.wf(),
                in_region(self.stage),
                start == self@.maps[self.region as int].start,
                self.next_match <= k <= self.matches@.len(),
                self@.proceed(self.next_match as int) == self@.proceed(k as int),
            decreases self.matches@.len() - k,
        {
            let offset = self.matches[k];
            let address = if offset as u64 as usize == offset {
                start.checked_add(offset as u64)
            } else {
                None
            };
            if let Some(address) = address {
                let probe = SizeProbe::new(address);
                if let Some(field) = probe.next_read() {
                    self.next_match = k + 1;
                    self.stage = ScanStage::Probing { address, probe, fix: false };
                    return Request::ReadMemory { address: field, length: 4 };
                }
            }
            k += 1;
        }
        if self.headerless {
            let probe = SizeProbe::new(start);
            if let Some(field) = probe.next_read() {
                self.next_match = k;
                self.headerless = false;
                self.stage = ScanStage::Probing { address: start, probe, fix: true };
                return Request::ReadMemory { address: field, length: 4 };
            }
        }
        let next = self.region + 1;
        self.enter(next)
    }

    /// Begins the search and hands out its first request.
    pub fn search_dex(&mut self) -> (request: Request)
        requires
            old(self)@.wf(),
        ensures
            final(self)@.wf(),
            (final(self)@, request@) == (DexDumperView { stage: ScanStage::Idle, ..old(self)@ }).advanced(
                ReplyView::Done,
            ),
    {
        self.stage = ScanStage::Stopping;
        self.attach_process()
    }

    /// Takes the reply to the request that was handed out last and hands
    /// out the next one.
    pub fn advance(&mut self, reply: Reply) -> (request: Request)
        requires
            old(self)@.wf(),
        ensures
            final(self)@.wf(),
            (final(self)@, request@) == old(self)@.advanced(reply@),
    {
        match self.stage {
            ScanStage::Idle => self.search_dex(),
            ScanStage::Stopping => if reply.is_success() {
                self.stage = ScanStage::Listing;
                Request::ReadMaps { pid: self.pid }
            } else {
                self.stage = ScanStage::Finished { attached: false, resumed: None };
                Request::Finish
            },
            ScanStage::Listing => match reply {
                Reply::Regions(maps) => {
                    let count = maps.len();
                    proof {
                        assert(mapping_views(maps@).len() == count);
                    }
                    self.maps = maps;
                    self.enter(0)
                },
                _ => self.release(false),
            },
            ScanStage::Region => {
                proof {
                    assert(self@.maps[self.region as int] == self.maps@[self.region as int]@);
                }
                let start = self.maps[self.region].start;
                let end = self.maps[self.region].end;
                let length = if end >= start {
                    end - start
                } else {
                    0
                };
                match reply.into_exact_bytes(length) {
                    Some(data) => {
                        let found = find_dex_offsets(data.as_slice());
                        let count = found.len();
                        self.matches = found;
                        self.next_match = 0;
                        self.headerless = region_lacks_header(data.as_slice());
                        self.proceed()
                    },
                    None => {
                        let next = self.region + 1;
                        self.enter(next)
                    },
                }
            },
            ScanStage::Probing { address, probe, fix } => {
                let next = probe.feed(reply.as_word());
                match next.next_read() {
                    Some(field) => {
                        self.stage = ScanStage::Probing { address, probe: next, fix };
                        Request::ReadMemory { address: field, length: 4 }
                    },
                    None => match next {
                        SizeProbe::Found { file_size, real_size } => {
                            self.stage = ScanStage::Image {
                                address,
                                declared: file_size,
                                size: real_size,
                                fix,
                            };
                            Request::ReadMemory { address, length: real_size as u64 }
                        },
                        _ => self.proceed(),
                    },
                }
            },
            ScanStage::Image { address, size, fix, .. } => match reply.into_exact_bytes(
                size as u64,
            ) {
                Some(data) => {
                    let image = if fix {
                        fix_dex_header(data.as_slice())
                    } else {
                        Some(data)
                    };
                    match image {
                        Some(image) => {
                            self.stage = ScanStage::Saving;
                            Request::WriteFile { name: dex_file_name(address), data: image }
                        },
                        None => self.proceed(),
                    }
                },
                None => self.proceed(),
            },
            ScanStage::Saving => self.proceed(),
            ScanStage::Releasing { attached } => {
                self.stage = ScanStage::Finished { attached, resumed: Some(reply.is_success()) };
                Request::Finish
            },
            ScanStage::Finished { .. } => Request::Finish,
        }
    }
}

/// Where a search for a region that qualifies ends: not before its start,
/// on such a region or behind the last region.
pub proof fn lemma_next_candidate(maps: Seq<MappingView>, from: int)
    requires
        0 <= from,
    ensures
        from <= next_candidate(maps, from) || next_candidate(maps, from) == maps.len(),
        next_candidate(maps, from) <= maps.len(),
        next_candidate(maps, from) < maps.len() ==> is_candidate(
            maps[next_candidate(maps, from)],
        ),
    decreases maps.len() - from,
{
    if from < maps.len() && !is_candidate(maps[from]) {
        lemma_next_candidate(maps, from + 1);
    }
}

proof fn lemma_proceed_keeps_on(v: DexDumperView, k: int)
    requires
        v.wf(),
        v.region < v.maps.len(),
        0 <= k,
    ensures
        v.proceed(k).0.maps == v.maps,
        v.proceed(k).0.pid == v.pid,
        v.proceed(k).0.wf(),
        v.proceed(k).0.region >= v.region,
        in_region(v.proceed(k).0.stage) || v.proceed(k).0.stage == (ScanStage::Releasing {
            attached: true,
        }),
        v.proceed(k).1 is Resume <==> v.proceed(k).0.stage is Releasing,
        !(v.proceed(k).1 is Pause),
        v.proceed(k).0.stage is Releasing ==> next_candidate(v.maps, v.region + 1)
            >= v.maps.len(),
    decreases v.matches.len() - k,
{
    lemma_next_candidate(v.maps, v.region + 1);
    if k < v.matches.len() {
        lemma_proceed_keeps_on(v, k + 1);
    }
}

/// Nothing that happens within a region ends the scan while a region that
/// qualifies is still to come: whatever the reply, be it a failure, the
/// scan stays in a region of the same region table, never goes back to
/// an earlier one, and leaves the process only when no later region
/// qualifies.
pub proof fn lemma_scan_goes_on(v: DexDumperView, reply: ReplyView)
    requires
        v.wf(),
        realizable(reply),
        in_region(v.stage),
    ensures
        v.advanced(reply).0.wf(),
        v.advanced(reply).0.maps == v.maps,
        v.advanced(reply).0.pid == v.pid,
        v.advanced(reply).0.region >= v.region,
        in_region(v.advanced(reply).0.stage) || v.advanced(reply).0.stage == (
        ScanStage::Releasing { attached: true }),
        v.advanced(reply).1 is Resume <==> v.advanced(reply).0.stage is Releasing,
        !(v.advanced(reply).1 is Pause),
        v.advanced(reply).0.stage is Releasing ==> next_candidate(v.maps, v.region + 1)
            >= v.maps.len(),
{
    lemma_next_candidate(v.maps, v.region + 1);
    lemma_proceed_keeps_on(v, v.next_match as int);
    match v.stage {
        ScanStage::Region => {
            match reply.exact_bytes(v.maps[v.region as int].size()) {
                Some(data) => {
                    lemma_proceed_keeps_on(
                        DexDumperView {
                            matches: dex_offsets(data),
                            next_match: 0,
                            headerless: lacks_header(data),
                            ..v
                        },
                        0,
                    );
                },
                None => {},
            }
        },
        _ => {},
    }
}

impl DexDumperError {
    /// What the reply to a request to write an image says went wrong:
    /// nothing if the image was written; that the file could not be
    /// created if the driver gave no reason; otherwise the reason.
    pub fn of_write(reply: &Reply) -> (error: Option<DexDumperError>)
        ensures
            match error {
                None => reply@.succeeded(),
                Some(DexDumperError::FileCreationFailed) => reply@ is Failed,
                Some(DexDumperError::IoError(reason)) => reply@ == ReplyView::Error(reason@),
                Some(_) => false,
            },
    {
        match reply {
            Reply::Failed => Some(DexDumperError::FileCreationFailed),
            Reply::Error(reason) => Some(DexDumperError::IoError(reason.clone())),
            _ => None,
        }
    }

    /// What the error says, in words.
    pub open spec fn text(self) -> Seq<char> {
        match self {
            DexDumperError::ProcessNotFound(pid) => "Process "@ + signed_text(pid) + " not found"@,
            DexDumperError::FailedToAttach => "Failed to attach to process"@,
            DexDumperError::FailedToDetach => "Failed to detach from process"@,
            DexDumperError::FileCreationFailed => "Failed to create output file"@,
            DexDumperError::IoError(reason) => "IO error: "@ + reason@,
        }
    }

    /// Says in words what went wrong.
    pub fn message(&self) -> (message: String)
        ensures
            message@ == self.text(),
    {
        let mut out: Vec<char> = Vec::new();
        match self {
            DexDumperError::ProcessNotFound(pid) => {
                push_str(&mut out, "Process ");
                if *pid < 0 {
                    out.push('-');
                }
                push_digits(&mut out, magnitude(*pid), 10);
                push_str(&mut out, " not found");
            },
            DexDumperError::FailedToAttach => {
                push_str(&mut out, "Failed to attach to process");
            },
            DexDumperError::FailedToDetach => {
                push_str(&mut out, "Failed to detach from process");
            },
            DexDumperError::FileCreationFailed => {
                push_str(&mut out, "Failed to create output file");
            },
            DexDumperError::IoError(reason) => {
                push_str(&mut out, "IO error: ");
                push_str(&mut out, reason.as_str());
            },
        }
        proof {
            assert(out@ =~= self.text());
        }
        string_from_chars(out.as_slice())
    }
}

/// A process id in decimal notation, with a minus sign if it is negative.
pub open spec fn signed_text(n: i32) -> Seq<char> {
    if n < 0 {
        seq!['-'] + digits_of((-(n as int)) as nat, 10)
    } else {
        digits_of(n as nat, 10)
    }
}

fn magnitude(n: i32) -> (m: u64)
    ensures
        m == if n < 0 {
            -(n as int)
        } else {
            n as int
        },
{
    if n < 0 {
        (-(n as i64)) as u64
    } else {
        n as u64
    }
}

} // verus!
