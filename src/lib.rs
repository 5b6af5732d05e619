//! Multi-expectation test checks with readable failure diagnostics.
//!
//! An expectation is evaluated to `Ok(())` or to `Err(diagnostic)`. A batch of
//! them is checked at once by [`check`], which reports every failure with its
//! position. Failed comparisons are rendered with the source text of each
//! operand underlined, its value shown beneath, and, for equality, a line and
//! word level difference of the two values.

pub mod text;
pub mod paint;
pub mod diff;
pub mod diagnostic;
pub mod batch;

pub use batch::{check, expect, expect_compare, expect_eq, expect_len, Outcome};
pub use diagnostic::internal_build_error;
pub use diff::{get_diff, Chunk};
