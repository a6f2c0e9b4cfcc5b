//! A declarative configuration reconciler: declared links, tree mirrors and
//! copies are converged onto the filesystem, tracked in a two-table store,
//! and garbage-collected once no longer declared.
pub mod tools;
pub mod structs;
pub mod store;
pub mod reconcile;
pub mod privilege;
pub mod gc;
pub mod builder;
pub mod laws;
pub mod sql;
pub mod cli;
pub mod managers;
pub mod alias;
