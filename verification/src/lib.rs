//! Memory service core: scope and time vocabulary, the capture and extraction
//! queues, request dispatch, and the rules around the daemon, the dashboard
//! and the command line.

pub mod text;
pub mod outside;
pub mod json;
pub mod store;
pub mod capture;
pub mod cli;
pub mod config;
pub mod daemon;
pub mod dashboard;
pub mod memory;
pub mod extract;
pub mod proto;
pub mod delivery;
pub mod notes;
pub mod dispatch;
pub mod id;
pub mod schema;
pub mod time;
pub mod scope;
pub mod edge;
pub mod origin;

pub use edge::EdgeEndpoint;
pub use id::{EdgeId, MemoryId, NodeId, PeerId};
pub use origin::{Confidence, Origin, OriginError, OriginInput, SourceKind};
pub use schema::{EdgeKind, EntityKind, MemoryKind, NodeKind};
pub use scope::{ScopeError, ScopePath};
pub use time::{valid_at, TemporalError, TemporalValidity, Timestamp};
