//! Read-only structural code queries: the operation allowlist, provider errors and
//! provider metadata, the `codebase-memory-mcp` provider's decisions, and the keys under
//! which query results are cached.
pub mod cache;
pub mod codebase_memory_cli;
pub mod error;
pub mod operations;
pub mod provider;
