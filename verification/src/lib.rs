//! A coverage-guided fuzzing engine: corpus, feedback, scheduling, mutation
//! and the bookkeeping of the execute-and-observe loop.

pub mod corpus;
pub mod coverage;
pub mod crashes;
pub mod executor;
pub mod feedback;
pub mod fuzzer;
pub mod model;
pub mod objective;
pub mod replay;
pub mod scheduler;
