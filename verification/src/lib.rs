//! Stacks of dependent branches, one pull request each, on top of a base
//! branch: how a stack is read off the history of a repository, and how it
//! is kept in step with the pull requests on the host.
//!
//! Nothing here runs a tool. The engines under `commands` say which call to
//! make next and take what came of it; `world` answers in place of the real
//! tools, so that a whole run can be stated and proved.

pub mod commands;
pub mod discovery;
pub mod git;
pub mod github;
pub mod port;
pub mod repo;
pub mod stack;
pub mod test_auth;
pub mod text;
pub mod world;
