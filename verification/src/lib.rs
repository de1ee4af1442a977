//! A verified core for a long-running ingestion client that polls a remote
//! archive service for height-addressed blocks and forwards them, in height
//! order and without gaps, to a downstream consumer.
//!
//! The crate separates the decision logic from the I/O that surrounds it:
//! [`Engine`] is a step function from the previous state and one observed
//! event (a response body, a delivery acknowledgement, the end of a pause)
//! to the next outward action (a request to issue, a block to deliver, a
//! pause to take). A host loop performs each action and feeds the outcome
//! back in; everything the engine decides is specified and proved here.
//!
//! [`Engine`]: crate::Engine

pub mod address;
pub mod builder;
pub mod client;
pub mod endpoints;
pub mod engine;
pub mod http;
pub mod numeric;
pub mod text;

pub use address::BaseUrl;
pub use builder::{ClientBuilder, DataSource, DataSourceMissing, DataSourceSet};
pub use client::{Block, ClientError, Header, SendError, StartHeight};
pub use endpoints::{build_height_endpoint, build_query_body, build_worker_endpoint};
pub use engine::{Action, Engine, Event, Phase};
pub use http::HttpClient;
pub use numeric::{parse_u64, u64_to_dec};
