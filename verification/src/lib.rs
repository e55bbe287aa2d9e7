//! Synchronization core for one collaboratively edited grid block.
//!
//! A block's state (its row collection) is materialized in a [`pad::GridBlockMetaPad`]
//! by replaying an ordered, checksummed revision history. Mutations against the pad
//! yield transient changes; a [`rev_manager::RevisionManager`] pairs each change with
//! a fresh `(base_rev_id, rev_id)`, stores the resulting revision, and compacts
//! contiguous revision runs into one equivalent revision. The
//! [`editor::ClientGridBlockMetaEditor`] coordinates one pad and one manager per block.

pub mod checksum;
pub mod delta;
pub mod editor;
pub mod errors;
pub mod pad;
pub mod rev_manager;
pub mod revision;
pub mod row;
