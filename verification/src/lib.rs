//! The logic of a tool that recovers e-mail out of a Bichon data directory into mbox files.
pub mod account;
pub mod course;
pub mod date;
pub mod directory;
pub mod encoding;
pub mod export;
pub mod json;
pub mod mailbox;
pub mod mbox;
pub mod metadata;
pub mod paging;
pub mod plan;
pub mod recovery;
pub mod scan;
pub mod selection;
pub mod startup;
pub mod text;
pub mod walk;
