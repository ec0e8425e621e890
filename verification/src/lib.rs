//! Discovery and database-export pipeline for containerized application
//! instances: recognising database containers by their image signature,
//! grouping them into a registry of named instances, resolving an operator's
//! selection, and driving a remote dump session whose multiplexed output is
//! demultiplexed into the dump artifact.

pub mod naming;
pub mod registry;
pub mod select;
pub mod session;
