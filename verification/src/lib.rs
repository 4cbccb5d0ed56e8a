//! Assembles a structured commit-message request from repository state and a
//! user manifest, composes a bounded prompt from a template and a context,
//! dispatches it to a generative-text provider under a bounded retry and
//! backoff policy, and splits the reply into candidate commit messages.
pub mod args;
pub mod config;
pub mod context;
pub mod error;
pub mod manifest;
pub mod prompt;
pub mod prompts;
pub mod providers;
pub mod reply;
pub mod template;
pub mod text;

use vstd::prelude::*;

verus! {

/// How many times one logical generate request may hit the remote endpoint.
pub const MAX_ATTEMPTS: u32 = 5;

} // verus!
