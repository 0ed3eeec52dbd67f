//! Interfaces of the collaborators that the consensus core relies on.

pub mod block_storage;
