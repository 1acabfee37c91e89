//! Verified core of the traits runtime: text helpers, glob matching,
//! prompt building, revision and history bookkeeping, games collections.

pub mod text;
pub mod glob;
pub mod args;
pub mod context;
pub mod number;
pub mod image;
pub mod clock;
pub mod history;
pub mod json;
pub mod vcs;
pub mod keyorder;
pub mod games;
pub mod vfs;
pub mod agents;
pub mod store;
