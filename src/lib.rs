//! Drives incremental verifiable computation over a circuit compiler's output:
//! the step inputs, the choice of witness generator, and the order in which
//! witnesses are generated and steps folded.
pub mod backend;
pub mod codec;
pub mod document;
pub mod driver;

pub use backend::FileLocation;
