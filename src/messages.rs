//! Messages exchanged between nodes, each framed under a tag of its own.
pub mod put_public_pmid;
