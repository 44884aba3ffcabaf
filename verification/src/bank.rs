//! Bank selection and input-path checking: the glue between a statement
//! file's name and the grammar that reads its text.

use vstd::prelude::*;

use vstd::string::StringExecFns;
use vstd::string::StringSliceAdditionalSpecFns;

use crate::grammar::BankGrammar;
use crate::text::{lower_starts_with, spec_lower_seq, spec_starts_with};

verus! {

/// The banks whose statement layouts this crate knows.
#[derive(Clone, Copy, PartialEq, Eq, Structural, Debug)]
pub enum Bank {
    AlphaBankExported,
    AlphaBank,
    ING,
}

/// The bytes of `"alphabankexported"`.
pub open spec fn spec_prefix_alphabankexported() -> Seq<u8> {
    seq![
        0x61u8,
        0x6Cu8,
        0x70u8,
        0x68u8,
        0x61u8,
        0x62u8,
        0x61u8,
        0x6Eu8,
        0x6Bu8,
        0x65u8,
        0x78u8,
        0x70u8,
        0x6Fu8,
        0x72u8,
        0x74u8,
        0x65u8,
        0x64u8,
    ]
}

/// The bytes of `"alphabank"`.
pub open spec fn spec_prefix_alphabank() -> Seq<u8> {
    seq![0x61u8, 0x6Cu8, 0x70u8, 0x68u8, 0x61u8, 0x62u8, 0x61u8, 0x6Eu8, 0x6Bu8]
}

/// The bytes of `"ing"`.
pub open spec fn spec_prefix_ing() -> Seq<u8> {
    seq![0x69u8, 0x6Eu8, 0x67u8]
}

/// The bank whose name prefixes the file name, compared after ASCII case
/// folding, longest candidate first.
pub open spec fn spec_determine_bank(name: Seq<u8>) -> Option<Bank> {
    let folded = spec_lower_seq(name);
    if spec_starts_with(folded, spec_prefix_alphabankexported()) {
        Some(Bank::AlphaBankExported)
    } else if spec_starts_with(folded, spec_prefix_alphabank()) {
        Some(Bank::AlphaBank)
    } else if spec_starts_with(folded, spec_prefix_ing()) {
        Some(Bank::ING)
    } else {
        None
    }
}

/// The grammar that reads this bank's statements: one grammar per
/// layout — exported AlphaBank schedules use the paired-lines layout,
/// plain AlphaBank statements the date-anchored one, ING the fixed-width
/// one.
pub open spec fn spec_bank_grammar(b: Bank) -> BankGrammar {
    match b {
        Bank::AlphaBankExported => BankGrammar::PairedLines,
        Bank::AlphaBank => BankGrammar::DateAnchored,
        Bank::ING => BankGrammar::FixedWidth,
    }
}

impl Bank {
    /// Picks the bank from a case-insensitive prefix match on the file
    /// name, as `spec_determine_bank` describes. No file content is read.
    pub fn determine_bank(file_name: &str) -> (r: Option<Bank>)
        ensures
            r == spec_determine_bank(file_name.spec_bytes()),
    {
        let bytes = file_name.as_bytes();
        let mut abe: Vec<u8> = Vec::new();
        abe.push(0x61);
        abe.push(0x6C);
        abe.push(0x70);
        abe.push(0x68);
        abe.push(0x61);
        abe.push(0x62);
        abe.push(0x61);
        abe.push(0x6E);
        abe.push(0x6B);
        let ab: Vec<u8> = abe.clone();
        abe.push(0x65);
        abe.push(0x78);
        abe.push(0x70);
        abe.push(0x6F);
        abe.push(0x72);
        abe.push(0x74);
        abe.push(0x65);
        abe.push(0x64);
        let mut ing: Vec<u8> = Vec::new();
        ing.push(0x69);
        ing.push(0x6E);
        ing.push(0x67);
        proof {
            assert(abe@ =~= spec_prefix_alphabankexported());
            assert(ab@ =~= spec_prefix_alphabank());
            assert(ing@ =~= spec_prefix_ing());
        }
        if lower_starts_with(bytes, abe.as_slice()) {
            Some(Bank::AlphaBankExported)
        } else if lower_starts_with(bytes, ab.as_slice()) {
            Some(Bank::AlphaBank)
        } else if lower_starts_with(bytes, ing.as_slice()) {
            Some(Bank::ING)
        } else {
            None
        }
    }

    /// The grammar that reads this bank's statements.
    pub fn grammar(&self) -> (g: BankGrammar)
        ensures
            g == spec_bank_grammar(*self),
    {
        match self {
            Bank::AlphaBankExported => BankGrammar::PairedLines,
            Bank::AlphaBank => BankGrammar::DateAnchored,
            Bank::ING => BankGrammar::FixedWidth,
        }
    }
}

/// Relies on std's `Path::exists`: asks the file system whether the path
/// names an existing entity. The answer depends on what is on disk, so
/// nothing is promised of it.
#[verifier::external_body]
fn path_exists(path: &str) -> bool {
    std::path::Path::new(path).exists()
}

/// Checks that an input path exists before extraction starts: the path
/// itself when the file system reports it present, and otherwise an error
/// message naming the path. Which way the answer falls depends on the file
/// system alone.
pub fn check_if_path_exists(path: &str) -> (r: Result<String, String>)
    ensures
        match r {
            Ok(p) => p@ == path@,
            Err(e) => e@ == "Fișierul nu există : "@ + path@,
        },
{
    if path_exists(path) {
        Ok(String::from_str(path))
    } else {
        Err(String::from_str("Fișierul nu există : ").concat(path))
    }
}

} // verus!
