//! Which regions of a process are searched for bytecode images, where
//! images begin in a region, and what the files are called that receive
//! them.

use crate::text::{
    hex_text_padded, matches_at, push_hex_padded, push_str, starts_with_seq, string_from_chars,
    to_chars,
};
use crate::utils::types::{MappingView, MemoryMapping};
use regex::bytes::Regex;
use vstd::prelude::*;

verus! {

/// A region has to be larger than this to be searched.
pub const MIN_MEMORY_SIZE: u64 = 0x60;

/// `path` is `dir` itself or lies below it.
pub open spec fn is_under(path: Seq<char>, dir: Seq<char>) -> bool {
    starts_with_seq(path, dir) && (path.len() == dir.len() || path[dir.len() as int] == '/')
}

/// The regions that are passed over because of what backs them: whatever
/// lies under the runtime's cache of optimized images or under the system
/// partition. A region without a backing path is never passed over.
pub open spec fn skipped_path(path: Seq<char>) -> bool {
    path.len() > 0 && (is_under(path, "/data/dalvik-cache"@) || is_under(path, "/system"@))
}

/// The regions that are searched: readable, larger than the floor below
/// which no header fits, and not backed by a path that is passed over.
pub open spec fn is_candidate(m: MappingView) -> bool {
    m.is_read() && m.size() > MIN_MEMORY_SIZE && !skipped_path(m.pathname)
}

fn path_is_under(path: &[char], dir: &str) -> (under: bool)
    ensures
        under == is_under(path@, dir@),
{
    let dir = to_chars(dir);
    matches_at(path, dir.as_slice(), 0) && (path.len() == dir.len() || path[dir.len()] == '/')
}

/// Whether a region is passed over because of the path that backs it; an
/// empty path stands for a region that nothing backs.
pub fn should_skip_memory_region(pathname: &str) -> (skip: bool)
    ensures
        skip == skipped_path(pathname@),
{
    let path = to_chars(pathname);
    path.len() > 0 && (path_is_under(path.as_slice(), "/data/dalvik-cache") || path_is_under(
        path.as_slice(),
        "/system",
    ))
}

/// Whether a region is searched for images.
pub fn is_candidate_region(region: &MemoryMapping) -> (candidate: bool)
    ensures
        candidate == is_candidate(region@),
{
    let permissions = to_chars(region.permissions.as_str());
    let readable = permissions.len() > 0 && permissions[0] == 'r';
    let size = if region.end >= region.start {
        region.end - region.start
    } else {
        0
    };
    readable && size > MIN_MEMORY_SIZE && !should_skip_memory_region(region.pathname.as_str())
}

/// The name of the file that receives the image found at `address`.
pub open spec fn dex_name(address: u64) -> Seq<char> {
    "dex_"@ + hex_text_padded(address) + ".dex"@
}

/// Names the file that receives the image found at `address`: the prefix
/// `dex_`, the address in hexadecimal, and the extension.
pub fn dex_file_name(address: u64) -> (name: String)
    ensures
        name@ == dex_name(address),
{
    let mut out: Vec<char> = Vec::new();
    push_str(&mut out, "dex_");
    push_hex_padded(&mut out, address);
    push_str(&mut out, ".dex");
    proof {
        assert(out@ =~= dex_name(address));
    }
    string_from_chars(out.as_slice())
}

/// The signature of an image as a pattern over bytes: `dex`, a line feed,
/// `0`, two further characters of the version, and a zero byte.
pub const DEX_PATTERN: &'static str = "\\x64\\x65\\x78\\x0a\\x30..\\x00";

/// Where the successive non-overlapping matches of a pattern begin in a
/// buffer, as the `regex` crate finds them; nothing where the crate
/// rejects the pattern.
pub uninterp spec fn regex_match_starts(pattern: Seq<char>, haystack: Seq<u8>) -> Option<
    Seq<usize>,
>;

/// `regex::bytes::Regex::new` followed by `find_iter`, keeping the start
/// of each match.
///
/// The result depends on the pattern and the buffer alone. What the crate
/// matches is its own affair and is only named here.
#[verifier::external_body]
fn find_match_starts(pattern: &str, haystack: &[u8]) -> (starts: Option<Vec<usize>>)
    ensures
        match starts {
            Some(v) => regex_match_starts(pattern@, haystack@) == Some(v@),
            None => regex_match_starts(pattern@, haystack@) is None,
        },
{
    match Regex::new(pattern) {
        Ok(re) => Some(re.find_iter(haystack).map(|m| m.start()).collect()),
        Err(_) => None,
    }
}

/// Where image signatures begin in a buffer.
pub open spec fn dex_offsets(region: Seq<u8>) -> Seq<usize> {
    match regex_match_starts(DEX_PATTERN@, region) {
        Some(starts) => starts,
        None => Seq::empty(),
    }
}

/// Finds the places in a buffer at which an image signature begins: the
/// starts of the matches of [`DEX_PATTERN`], in the order in which the
/// `regex` crate hands them out.
pub fn find_dex_offsets(region: &[u8]) -> (offsets: Vec<usize>)
    ensures
        offsets@ == dex_offsets(region@),
{
    match find_match_starts(DEX_PATTERN, region) {
        Some(starts) => starts,
        None => Vec::new(),
    }
}

/// A buffer that does not even begin like an image: it has three bytes or
/// more and they are not `dex`.
pub open spec fn lacks_header(region: Seq<u8>) -> bool {
    region.len() >= 3 && !(region[0] == 0x64 && region[1] == 0x65 && region[2] == 0x78)
}

/// Whether a region calls for the recovery of an image without a header.
pub fn region_lacks_header(region: &[u8]) -> (lacks: bool)
    ensures
        lacks == lacks_header(region@),
{
    region.len() >= 3 && !(region[0] == 0x64 && region[1] == 0x65 && region[2] == 0x78)
}

} // verus!
