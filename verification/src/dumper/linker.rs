//! The loader's binary, read for the one symbol that leads to the
//! loader's list of loaded objects.

use super::sodumper::SoDumperError;
use crate::text::{contains_chars, contains_seq, to_chars};
use goblin::elf::Elf;
use vstd::prelude::*;

verus! {

/// What the symbol of the loader's list of loaded objects is recognized by.
pub const SOLIST_SYMBOL: &'static str = "__dl__ZL6solist";

/// `goblin::error::Error`, which says why a binary could not be parsed.
#[verifier::external_type_specification]
#[verifier::external_body]
pub struct ExGoblinError(goblin::error::Error);

/// The symbols of a linkable object, each with its name, if the string
/// table has one for it, and its value, in the order of the symbol table;
/// nothing where the `goblin` crate does not accept the binary.
pub uninterp spec fn elf_symbols(image: Seq<u8>) -> Option<Seq<(Option<Seq<char>>, u64)>>;

/// The contents of a list of symbols.
pub open spec fn symbol_views(symbols: Seq<(Option<String>, u64)>) -> Seq<
    (Option<Seq<char>>, u64),
> {
    Seq::new(
        symbols.len(),
        |i: int|
            (
                match symbols[i].0 {
                    Some(name) => Some(name@),
                    None => None,
                },
                symbols[i].1,
            ),
    )
}

/// `goblin::elf::Elf::parse`, then for each entry of `syms` the name that
/// `strtab.get_at` gives for its `st_name`, and its `st_value`.
///
/// The result depends on the bytes alone. How the crate reads a binary is
/// its own affair and is only named here. The crate holds the symbol
/// table against the length of the binary when it parses, so that going
/// through the symbols afterwards reads nothing outside it.
#[verifier::external_body]
fn read_elf_symbols(image: &[u8]) -> (symbols: Result<
    Vec<(Option<String>, u64)>,
    goblin::error::Error,
>)
    ensures
        match symbols {
            Ok(v) => elf_symbols(image@) == Some(symbol_views(v@)),
            Err(_) => elf_symbols(image@) is None,
        },
{
    let elf = Elf::parse(image)?;
    Ok(
        elf.syms.iter().map(
            |sym| (elf.strtab.get_at(sym.st_name).map(|name| name.to_string()), sym.st_value),
        ).collect(),
    )
}

/// The value of the first symbol whose name contains the name of the
/// loader's list.
pub open spec fn solist_value(symbols: Seq<(Option<Seq<char>>, u64)>) -> Option<u64>
    decreases symbols.len(),
{
    if symbols.len() == 0 {
        None
    } else if (symbols[0].0 matches Some(name) && contains_seq(name, SOLIST_SYMBOL@)) {
        Some(symbols[0].1)
    } else {
        solist_value(symbols.drop_first())
    }
}

/// Where the loader keeps the pointer to its list of loaded objects,
/// counted from the start of the loader's image; or why that is not known.
pub open spec fn solist_offset(image: Seq<u8>) -> Result<u64, SoDumperError> {
    match elf_symbols(image) {
        Some(symbols) => match solist_value(symbols) {
            Some(value) => Ok(value),
            None => Err(SoDumperError::SymbolNotFound),
        },
        None => Err(SoDumperError::LinkerMalformed),
    }
}

/// Looks for the symbol of the loader's list among the symbols of the
/// loader's binary.
pub fn find_solist_symbol(symbols: &Vec<(Option<String>, u64)>) -> (value: Option<u64>)
    ensures
        value == solist_value(symbol_views(symbols@)),
{
    let needle = to_chars(SOLIST_SYMBOL);
    let ghost all = symbol_views(symbols@);
    let mut i: usize = 0;
    proof {
        assert(all.skip(0) =~= all);
    }
    while i < symbols.len()
        invariant
            i <= symbols.len(),
            needle@ == SOLIST_SYMBOL@,
            all == symbol_views(symbols@),
            solist_value(all) == solist_value(all.skip(i as int)),
        decreases symbols.len() - i,
    {
        proof {
            assert(all.skip(i as int)[0] == all[i as int]);
            assert(all.skip(i as int).drop_first() =~= all.skip(i + 1));
        }
        match &symbols[i].0 {
            Some(name) => {
                let chars = to_chars(name.as_str());
                if contains_chars(chars.as_slice(), needle.as_slice()) {
                    return Some(symbols[i].1);
                }
            },
            None => {},
        }
        i += 1;
    }
    proof {
        assert(all.skip(i as int) =~= Seq::<(Option<Seq<char>>, u64)>::empty());
    }
    None
}

/// Reads the loader's binary and finds where the loader keeps the pointer
/// to its list of loaded objects.
pub fn get_solist_offset(image: &[u8]) -> (offset: Result<u64, SoDumperError>)
    ensures
        offset == solist_offset(image@),
{
    match read_elf_symbols(image) {
        Ok(symbols) => match find_solist_symbol(&symbols) {
            Some(value) => Ok(value),
            None => Err(SoDumperError::SymbolNotFound),
        },
        Err(_) => Err(SoDumperError::LinkerMalformed),
    }
}

} // verus!
