//! Core of a compile-time contract-annotation processor.
//!
//! The library lets an author attach *preconditions* — documented assumptions
//! a function requires of its caller — to a function declaration, and asks
//! every call site to restate the same preconditions together with a
//! human-authored justification.  The bookkeeping is turned into a static
//! guarantee by encoding each precondition set as a deterministic marker type
//! appended to the function's parameter list and to the call's argument list:
//! a mismatch becomes an ordinary type error in the host compiler.
//!
//! The pipeline is a pure tree transformation over an owned syntax model:
//! annotation contents arrive as token sequences, declarations and calls as
//! plain data, and every pass returns rewritten data plus structured
//! diagnostics.  Reading real source into this model and printing the result
//! back out is the host's business, not this library's.

pub mod diag;
pub mod encode;
pub mod mirror;
pub mod parse;
pub mod precondition;
pub mod rewrite;
pub mod syntax;
pub mod text;
pub mod token;
