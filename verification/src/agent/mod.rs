//! The analysis run's own decisions: which chunks count as priority, what
//! a run directory is called, and the progress bookkeeping that lets an
//! interrupted run resume.
pub mod assemble;
pub mod progress;
pub mod run;
