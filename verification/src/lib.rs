//! Synchronisation core of a desktop tool that tracks git repositories,
//! grouped into workspaces.

pub mod command;
pub mod digits;
pub mod dispatch;
pub mod localization;
pub mod logging;
pub mod messages;
pub mod operations;
pub mod paths;
pub mod pathset;
pub mod planning;
pub mod pool;
pub mod query;
pub mod reconcile;
pub mod retry;
pub mod search;
pub mod sorting;
pub mod status;
pub mod text;
pub mod tree;
pub mod workspace;
