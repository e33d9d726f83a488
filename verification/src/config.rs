//! Compiler configuration: optimisation level, kind of target, kind of
//! emitted artefact, verbosity and where diagnostics are printed.

use vstd::prelude::*;
use vstd::std_specs::convert::FromSpecImpl;
use std::path::PathBuf;
use inkwell::OptimizationLevel;

verus! {

#[verifier::external_type_specification]
#[verifier::external_body]
pub struct ExPathBuf(PathBuf);

#[verifier::external_type_specification]
#[verifier::external_body]
pub struct ExPath(std::path::Path);

#[verifier::external_type_specification]
pub struct ExOptimizationLevel(OptimizationLevel);

/// `PathBuf::clone` of std: the copy is the same path as `path`.
pub assume_specification[ <PathBuf as Clone>::clone ](path: &PathBuf) -> (copy: PathBuf)
    ensures
        copy == *path,
;

/// How hard the back end optimises.
#[derive(Debug, PartialEq, Eq, PartialOrd, Ord, Clone, Copy)]
pub enum OptLv {
    Debug,
    Opt1,
    Opt2,
    Opt3,
}

impl OptLv {
    /// The name under which each level is given on a command line.
    pub open spec fn spec_name(self) -> Seq<char> {
        match self {
            OptLv::Debug => "0"@,
            OptLv::Opt1 => "1"@,
            OptLv::Opt2 => "2"@,
            OptLv::Opt3 => "3"@,
        }
    }

    /// The back end's level that each level stands for.
    pub open spec fn spec_level(self) -> OptimizationLevel {
        match self {
            OptLv::Debug => OptimizationLevel::None,
            OptLv::Opt1 => OptimizationLevel::Less,
            OptLv::Opt2 => OptimizationLevel::Default,
            OptLv::Opt3 => OptimizationLevel::Aggressive,
        }
    }

    /// All levels, from the weakest to the strongest.
    pub fn value_variants() -> (all: Vec<OptLv>)
        ensures
            all@ == seq![OptLv::Debug, OptLv::Opt1, OptLv::Opt2, OptLv::Opt3],
    {
        vec![OptLv::Debug, OptLv::Opt1, OptLv::Opt2, OptLv::Opt3]
    }

    /// The command-line name of this level; every level has one.
    pub fn to_possible_value(&self) -> (name: Option<&'static str>)
        ensures
            name matches Some(s) && s@ == self.spec_name(),
    {
        Some(
            match self {
                OptLv::Debug => "0",
                OptLv::Opt1 => "1",
                OptLv::Opt2 => "2",
                OptLv::Opt3 => "3",
            },
        )
    }

    /// The back end's optimisation level for this level.
    pub fn into(self) -> (level: OptimizationLevel)
        ensures
            level == self.spec_level(),
    {
        match self {
            OptLv::Debug => OptimizationLevel::None,
            OptLv::Opt1 => OptimizationLevel::Less,
            OptLv::Opt2 => OptimizationLevel::Default,
            OptLv::Opt3 => OptimizationLevel::Aggressive,
        }
    }
}

/// What is linked in the end.
#[derive(Debug, PartialEq, Eq, Clone, Copy)]
pub enum TargetType {
    Bin,
    ReLoc,
    DyLib,
}

impl TargetType {
    pub open spec fn spec_name(self) -> Seq<char> {
        match self {
            TargetType::Bin => "bin"@,
            TargetType::ReLoc => "lib"@,
            TargetType::DyLib => "dylib"@,
        }
    }

    /// All kinds of target, the default first.
    pub fn value_variants() -> (all: Vec<TargetType>)
        ensures
            all@ == seq![TargetType::Bin, TargetType::ReLoc, TargetType::DyLib],
    {
        vec![TargetType::Bin, TargetType::ReLoc, TargetType::DyLib]
    }

    /// The command-line name of this kind of target.
    pub fn to_possible_value(&self) -> (name: Option<&'static str>)
        ensures
            name matches Some(s) && s@ == self.spec_name(),
    {
        Some(
            match self {
                TargetType::Bin => "bin",
                TargetType::ReLoc => "lib",
                TargetType::DyLib => "dylib",
            },
        )
    }
}

impl Default for TargetType {
    fn default() -> (kind: TargetType)
        ensures
            kind == TargetType::Bin,
    {
        TargetType::Bin
    }
}

/// What the back end writes out.
#[derive(Debug, PartialEq, Eq, Clone, Copy)]
pub enum EmitType {
    LLVMIR,
    Asm,
    Obj,
}

impl EmitType {
    pub open spec fn spec_name(self) -> Seq<char> {
        match self {
            EmitType::LLVMIR => "llvm-ir"@,
            EmitType::Asm => "asm"@,
            EmitType::Obj => "obj"@,
        }
    }

    /// All kinds of output.
    pub fn value_variants() -> (all: Vec<EmitType>)
        ensures
            all@ == seq![EmitType::LLVMIR, EmitType::Asm, EmitType::Obj],
    {
        vec![EmitType::LLVMIR, EmitType::Asm, EmitType::Obj]
    }

    /// The command-line name of this kind of output.
    pub fn to_possible_value(&self) -> (name: Option<&'static str>)
        ensures
            name matches Some(s) && s@ == self.spec_name(),
    {
        Some(
            match self {
                EmitType::LLVMIR => "llvm-ir",
                EmitType::Asm => "asm",
                EmitType::Obj => "obj",
            },
        )
    }
}

impl Default for EmitType {
    fn default() -> (kind: EmitType)
        ensures
            kind == EmitType::Obj,
    {
        EmitType::Obj
    }
}

/// How much is reported while compiling.
#[derive(Debug, PartialEq, Eq, PartialOrd, Ord, Clone, Copy)]
pub enum VerboseLv {
    V1,
    V2,
    V3,
}

impl VerboseLv {
    pub open spec fn spec_name(self) -> Seq<char> {
        match self {
            VerboseLv::V1 => "v1"@,
            VerboseLv::V2 => "v2"@,
            VerboseLv::V3 => "v3"@,
        }
    }

    /// The level that a count of `-v` flags selects: two give `V2`, any
    /// other count gives `V1`.
    pub open spec fn of_count(count: usize) -> VerboseLv {
        if count == 2 {
            VerboseLv::V2
        } else {
            VerboseLv::V1
        }
    }

    /// All levels of verbosity, the quietest first.
    pub fn value_variants() -> (all: Vec<VerboseLv>)
        ensures
            all@ == seq![VerboseLv::V1, VerboseLv::V2, VerboseLv::V3],
    {
        vec![VerboseLv::V1, VerboseLv::V2, VerboseLv::V3]
    }

    /// The command-line name of this level.
    pub fn to_possible_value(&self) -> (name: Option<&'static str>)
        ensures
            name matches Some(s) && s@ == self.spec_name(),
    {
        Some(
            match self {
                VerboseLv::V1 => "v1",
                VerboseLv::V2 => "v2",
                VerboseLv::V3 => "v3",
            },
        )
    }
}

impl From<usize> for VerboseLv {
    fn from(i: usize) -> (level: VerboseLv) {
        match i {
            1 => VerboseLv::V1,
            2 => VerboseLv::V2,
            _ => VerboseLv::V1,
        }
    }
}

impl FromSpecImpl<usize> for VerboseLv {
    open spec fn obeys_from_spec() -> bool {
        true
    }

    open spec fn from_spec(i: usize) -> VerboseLv {
        VerboseLv::of_count(i)
    }
}

/// Where diagnostics go.
#[derive(Debug, PartialEq, Eq)]
pub enum PrintTy {
    StdErr,
    File(PathBuf),
}

impl PrintTy {
    /// The file that diagnostics are written to, if they go to a file.
    pub fn get_path(&self) -> (path: Option<PathBuf>)
        ensures
            path == match *self {
                PrintTy::File(p) => Some(p),
                PrintTy::StdErr => None,
            },
    {
        if let PrintTy::File(ref path) = self {
            Some(path.clone())
        } else {
            None
        }
    }
}

/// Width of the platform word in bytes: 8 on a 64-bit target, 4 on a 32-bit
/// one.
pub fn usize_len() -> (bytes: usize)
    ensures
        bytes * 8 == usize::BITS,
        bytes == 4 || bytes == 8,
{
    (usize::BITS / 8) as usize
}

/// Everything a compilation run is configured with.
#[derive(Debug, PartialEq, Eq)]
pub struct CompilerConfig {
    pub optlv: OptLv,
    pub target_type: TargetType,
    pub emit_type: EmitType,
    pub print_type: PrintTy,
}

} // verus!
