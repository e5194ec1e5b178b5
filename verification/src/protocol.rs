//! The vocabulary between the dumpers and whoever drives them.
//!
//! A dumper never touches a process, a file or a signal. It hands out a
//! [`Request`], the driver carries it out and hands back a [`Reply`], and
//! the dumper decides what comes next.

use crate::utils::types::{mapping_views, MappingView, MemoryMapping};
use vstd::prelude::*;

verus! {

/// Something for the driver to do.
#[derive(Debug)]
pub enum Request {
    /// Stop the process with this id.
    Pause { pid: i32 },
    /// Let the process with this id run again.
    Resume { pid: i32 },
    /// Read the region table of the process. Answer: `Text` with the table
    /// as the system prints it, or `Regions` with the table already read.
    ReadMaps { pid: i32 },
    /// Read a whole file. Answer: `Bytes`.
    ReadFile { path: String },
    /// Read exactly `length` bytes of the target's memory at `address`.
    /// Answer: `Bytes` of that length; anything shorter is a failure.
    ReadMemory { address: u64, length: u64 },
    /// Create or truncate the file `name` in the output directory and write
    /// `data` to it. Answer: `Text` with the path that was written.
    WriteFile { name: String, data: Vec<u8> },
    /// Put the repair tool at `path`, executable with `mode`.
    InstallFixer { path: String, mode: u32 },
    /// Run `program` with `args`; it succeeds if it exits with zero.
    RunFixer { program: String, args: Vec<String> },
    /// Remove the file at `path` if it is there.
    RemoveFile { path: String },
    /// Nothing is left to do.
    Finish,
}

/// What came of a request.
#[derive(Debug)]
pub enum Reply {
    /// It was done and there is nothing to hand back.
    Done,
    /// It could not be done.
    Failed,
    /// It went wrong on the way, and the system said this about it.
    Error(String),
    /// It was done and gave these bytes.
    Bytes(Vec<u8>),
    /// It was done and gave this text.
    Text(String),
    /// It was done and gave these regions.
    Regions(Vec<MemoryMapping>),
}

/// The mathematical content of a [`Request`].
pub enum RequestView {
    Pause { pid: i32 },
    Resume { pid: i32 },
    ReadMaps { pid: i32 },
    ReadFile { path: Seq<char> },
    ReadMemory { address: u64, length: u64 },
    WriteFile { name: Seq<char>, data: Seq<u8> },
    InstallFixer { path: Seq<char>, mode: u32 },
    RunFixer { program: Seq<char>, args: Seq<Seq<char>> },
    RemoveFile { path: Seq<char> },
    Finish,
}

/// The mathematical content of a [`Reply`].
pub enum ReplyView {
    Done,
    Failed,
    Error(Seq<char>),
    Bytes(Seq<u8>),
    Text(Seq<char>),
    Regions(Seq<MappingView>),
}

/// The texts that a list of strings holds.
pub open spec fn string_views(strings: Seq<String>) -> Seq<Seq<char>> {
    Seq::new(strings.len(), |i: int| strings[i]@)
}

impl View for Request {
    type V = RequestView;

    open spec fn view(&self) -> RequestView {
        match *self {
            Request::Pause { pid } => RequestView::Pause { pid },
            Request::Resume { pid } => RequestView::Resume { pid },
            Request::ReadMaps { pid } => RequestView::ReadMaps { pid },
            Request::ReadFile { path } => RequestView::ReadFile { path: path@ },
            Request::ReadMemory { address, length } => RequestView::ReadMemory { address, length },
            Request::WriteFile { name, data } => RequestView::WriteFile {
                name: name@,
                data: data@,
            },
            Request::InstallFixer { path, mode } => RequestView::InstallFixer {
                path: path@,
                mode,
            },
            Request::RunFixer { program, args } => RequestView::RunFixer {
                program: program@,
                args: string_views(args@),
            },
            Request::RemoveFile { path } => RequestView::RemoveFile { path: path@ },
            Request::Finish => RequestView::Finish,
        }
    }
}

impl View for Reply {
    type V = ReplyView;

    open spec fn view(&self) -> ReplyView {
        match *self {
            Reply::Done => ReplyView::Done,
            Reply::Failed => ReplyView::Failed,
            Reply::Error(reason) => ReplyView::Error(reason@),
            Reply::Bytes(data) => ReplyView::Bytes(data@),
            Reply::Text(text) => ReplyView::Text(text@),
            Reply::Regions(regions) => ReplyView::Regions(mapping_views(regions@)),
        }
    }
}

impl ReplyView {
    /// The bytes of a successful read of exactly `length` bytes.
    pub open spec fn exact_bytes(self, length: int) -> Option<Seq<u8>> {
        match self {
            ReplyView::Bytes(data) => if data.len() == length {
                Some(data)
            } else {
                None
            },
            _ => None,
        }
    }

    /// The number that a successful read of four bytes gave.
    pub open spec fn word(self) -> Option<u32> {
        match self.exact_bytes(4) {
            Some(data) => Some(crate::codec::le_u32(data) as u32),
            None => None,
        }
    }

    /// The request was carried out.
    pub open spec fn succeeded(self) -> bool {
        !(self is Failed) && !(self is Error)
    }
}

impl Reply {
    /// The bytes of a read, if it gave exactly `length` of them.
    pub fn into_exact_bytes(self, length: u64) -> (data: Option<Vec<u8>>)
        ensures
            match data {
                Some(d) => self@.exact_bytes(length as int) == Some(d@),
                None => self@.exact_bytes(length as int) is None,
            },
    {
        match self {
            Reply::Bytes(data) => if data.len() as u64 == length {
                Some(data)
            } else {
                None
            },
            _ => None,
        }
    }

    /// The number that a read of four bytes gave.
    pub fn as_word(&self) -> (value: Option<u32>)
        ensures
            value == self@.word(),
    {
        match self {
            Reply::Bytes(data) => if data.len() == 4 {
                crate::codec::u32_at(data.as_slice(), 0)
            } else {
                None
            },
            _ => None,
        }
    }

    /// Whether the request was carried out.
    pub fn is_success(&self) -> (ok: bool)
        ensures
            ok == self@.succeeded(),
    {
        match self {
            Reply::Failed => false,
            Reply::Error(_) => false,
            _ => true,
        }
    }
}

/// The number of requests to let the process run again.
pub open spec fn resumes(requests: Seq<RequestView>) -> nat
    decreases requests.len(),
{
    if requests.len() == 0 {
        0
    } else {
        resumes(requests.drop_last()) + if requests.last() is Resume {
            1nat
        } else {
            0nat
        }
    }
}

/// The number of requests to stop the process.
pub open spec fn pauses(requests: Seq<RequestView>) -> nat
    decreases requests.len(),
{
    if requests.len() == 0 {
        0
    } else {
        pauses(requests.drop_last()) + if requests.last() is Pause {
            1nat
        } else {
            0nat
        }
    }
}

/// Counting the requests of a run from its first request on.
pub proof fn lemma_counts_push(requests: Seq<RequestView>, first: RequestView)
    ensures
        resumes(seq![first] + requests) == resumes(requests) + if first is Resume {
            1nat
        } else {
            0nat
        },
        pauses(seq![first] + requests) == pauses(requests) + if first is Pause {
            1nat
        } else {
            0nat
        },
    decreases requests.len(),
{
    let all = seq![first] + requests;
    if requests.len() == 0 {
        assert(all.drop_last() =~= Seq::<RequestView>::empty());
        assert(resumes(all.drop_last()) == 0);
        assert(pauses(all.drop_last()) == 0);
    } else {
        lemma_counts_push(requests.drop_last(), first);
        assert(all.drop_last() =~= seq![first] + requests.drop_last());
        assert(all.last() == requests.last());
    }
}

} // verus!
