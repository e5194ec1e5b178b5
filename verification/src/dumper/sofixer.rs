//! The outside tool that turns a raw dump of a native library into a file
//! that loads again, as far as this library is concerned with it: where it
//! is put and how it is called.

use crate::protocol::{string_views, Request, RequestView};
use crate::text::{hex_text, push_hex, push_str, string_from_chars};
use vstd::prelude::*;

verus! {

/// The permission bits of the installed tool: all may read and run it, the
/// owner may write it.
pub const FIXER_MODE: u32 = 0o755;

/// The repair tool and where it is kept.
#[derive(Debug)]
pub struct SoFixer {
    pub binary_path: String,
}

/// The arguments of a repair: the load base in hexadecimal after `-m`, the
/// raw dump after `-s`, the file to produce after `-o`.
pub open spec fn fixer_args(base: u64, so_path: Seq<char>, output_path: Seq<char>) -> Seq<
    Seq<char>,
> {
    seq!["-m"@, hex_text(base), "-s"@, so_path, "-o"@, output_path]
}

impl SoFixer {
    /// The tool, kept beside the working directory.
    pub fn new() -> (made: Result<SoFixer, core::convert::Infallible>)
        ensures
            made is Ok,
            made->Ok_0.binary_path@ == "./SoFixer"@,
    {
        Ok(SoFixer { binary_path: "./SoFixer".to_owned() })
    }

    /// The request that puts the tool in its place.
    pub fn extract(&self) -> (request: Request)
        ensures
            request@ == (RequestView::InstallFixer { path: self.binary_path@, mode: FIXER_MODE }),
    {
        Request::InstallFixer { path: self.binary_path.clone(), mode: FIXER_MODE }
    }

    /// The request that repairs the dump at `so_path`, which was loaded at
    /// `base`, into `output_path`. While the tool is not in its place the
    /// request is to put it there. What the run has come to is judged by
    /// [`of_run`].
    pub fn fix_so(&self, installed: bool, base: u64, so_path: &str, output_path: &str) -> (request:
        Request)
        ensures
            request@ == (if installed {
                RequestView::RunFixer {
                    program: self.binary_path@,
                    args: fixer_args(base, so_path@, output_path@),
                }
            } else {
                RequestView::InstallFixer { path: self.binary_path@, mode: FIXER_MODE }
            }),
    {
        if !installed {
            return self.extract();
        }
        let mut hex: Vec<char> = Vec::new();
        push_hex(&mut hex, base);
        let mut args: Vec<String> = Vec::new();
        args.push("-m".to_owned());
        args.push(string_from_chars(hex.as_slice()));
        args.push("-s".to_owned());
        args.push(so_path.to_owned());
        args.push("-o".to_owned());
        args.push(output_path.to_owned());
        proof {
            assert(hex@ =~= hex_text(base));
            assert(string_views(args@) =~= fixer_args(base, so_path@, output_path@));
        }
        Request::RunFixer { program: self.binary_path.clone(), args }
    }

    /// The request that takes the tool away again.
    pub fn cleanup(&self) -> (request: Request)
        ensures
            request@ == (RequestView::RemoveFile { path: self.binary_path@ }),
    {
        Request::RemoveFile { path: self.binary_path.clone() }
    }
}

/// What a run of the repair tool has come to: a success exactly if the
/// tool exited with code zero, and otherwise an error that carries what
/// the tool wrote to its error stream. A run that ended without an exit
/// code is no success.
pub fn of_run(code: Option<i32>, stderr: &str) -> (outcome: Result<(), String>)
    ensures
        outcome is Ok <==> code == Some(0i32),
        outcome matches Err(text) ==> text@ == "SoFixer failed: "@ + stderr@,
{
    match code {
        Some(0) => Ok(()),
        _ => {
            let mut out: Vec<char> = Vec::new();
            push_str(&mut out, "SoFixer failed: ");
            push_str(&mut out, stderr);
            proof {
                assert(out@ =~= "SoFixer failed: "@ + stderr@);
            }
            Err(string_from_chars(out.as_slice()))
        },
    }
}

} // verus!
