//! Detection of conditionals that test a sequence for emptiness and then, in the branch
//! that runs on a non-empty sequence, index it at zero only: such code can bind the
//! first element with `if let Some(x) = seq.first()` instead.
//!
//! The modules follow the order in which a call site is handled: `guard` finds the
//! governing conditional, `scan` proves the branch safe to rewrite, `suggest` builds the
//! replacement text, and `lint` joins them. `tree` holds the expression model they read.

pub mod guard;
pub mod lint;
pub mod scan;
pub mod suggest;
pub mod tree;
