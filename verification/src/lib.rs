//! A data-access layer for a small store of "fact" records kept in a
//! column-family cluster: what is sent to the cluster, what each answer
//! means, and how the schema is brought up.

pub mod error;
pub mod fact;
pub mod facts;
pub mod fairings;
pub mod host;
pub mod key;
pub mod laws;
pub mod level;
pub mod memory;
pub mod migration;
pub mod outcome;
pub mod random;
pub mod row;
pub mod seed;
pub mod statement;
pub mod store;

pub use facts::FactsContext;
pub use fact::Fact;
pub use fairings::Counter;
pub use host::{get_hostname, get_nodename};
