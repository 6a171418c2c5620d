//! Logic behind the command-line tool: coordinator profiles, the worker service's
//! system integration, and the arithmetic of model benchmarks.
pub mod profiles;
pub mod worker_lifecycle;
pub mod model_commands;
