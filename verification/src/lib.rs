//! Core of a local-first workspace client.
//!
//! The snapshot store persists the user's workspace (boards, bookmarks,
//! notes) as one JSON document and always has something to hand the UI shell,
//! whatever state the file is in. The sync engine reconciles the local
//! snapshot with a remote replica through an opaque bridge: it interprets the
//! bridge's compare-and-swap verdicts, completes a conflicted push with
//! exactly one pull, and keeps a coarse sync status. The wire format itself —
//! printing and parsing the document — is part of the core, with the
//! print-then-parse round trip proved.

pub mod cloud;
pub mod codec;
pub mod data;
pub mod engine;
pub mod json;
pub mod store;
pub mod text;
pub mod update;
