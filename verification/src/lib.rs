//! A kit for assembling small programs in an SSA intermediate
//! representation: a grammar for declaring external functions, a table of
//! primitive types, a compilation unit that records declarations and
//! instructions, builders for the common low-level constructs, and the
//! lowering of a unit to LLVM through `inkwell`.
//!
//! A unit is plain data. The builders append instructions to it where a
//! cursor stands, and say in their contracts exactly which; `emit` walks
//! the finished unit and builds the back end's module from it.
//!
//! The unit does not hold the back end's module and blocks themselves,
//! and this is why. What the back end's builder hands out for an
//! instruction depends on where the builder stands and on what the block
//! holds already, and the back end folds constants, so that an
//! instruction asked for need not be one emitted. Nothing that a builder
//! of this kit promises, which instructions stand in the block, in which
//! order, and which register each defines, could be said of a block that
//! was filled through it. So the instructions are recorded first, where
//! all of that is proved, and handed to the back end in one pass, of which
//! `emit` says what the back end's own documentation supports: which
//! functions the module holds, with which linkage and shape, what each
//! register holds by class, what a store and a return were given, and
//! when the pass succeeds.

pub mod builder;
pub mod config;
pub mod emit;
pub mod error;
pub mod grammar;
pub mod ir;
pub mod lexer;
pub mod meaning;
pub mod module;
pub mod program;
pub mod spelling;
pub mod text;
pub mod types;

pub use builder::{builder_position_at_start, is_int_pointer, Cursor, Place};
pub use config::{usize_len, CompilerConfig, EmitType, OptLv, PrintTy, TargetType, VerboseLv};
pub use emit::{
    bits_of, can_load, entry_label, get_ctx, int_of, linkage_for, lower_unit, predicate_for,
    ptr_of, same_width, try_lower, Class, EmitError, Lowering,
};
pub use error::DeclError;
pub use grammar::{parse_signatures, FunHdr, TypeExpr};
pub use ir::{Block, Function, Inst, Predicate, Slot, TextConst, Value, ValueKind};
pub use lexer::{lex, Token, TokenKind};
pub use module::{
    impl_fn_hdr, posix_catalogue, resolve_batch, FunDecl, PosixGroup, Signature, VMMod,
};
pub use program::{build_open_and_write, lower_open_and_write};
pub use text::str_eq;
pub use types::{load_vm_common_ty, Binding, Prim, TypeDesc, TypeSpec, TypeTable};
