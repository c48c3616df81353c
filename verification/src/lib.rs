//! Verified property checks over arbitrary-precision integers.
//!
//! Big numbers are held as plain values (big-endian bytes) and every
//! arithmetic step is carried out by `num-bigint`, behind wrappers whose
//! contracts state what the step computes.

pub mod natural;
pub mod text;
pub mod integer;
pub mod etna;
pub mod harness;
