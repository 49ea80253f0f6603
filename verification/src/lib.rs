//! Client library for Agent Warden.
//!
//! The library holds what the clients decide; it opens no connection. Every call of a
//! service has two halves. The first is a method of the service's client, which makes
//! the [`Request`] that is to be sent: method, URL, token and body. The second reads
//! the reply: it takes the status, the body, and what the body is as the type that was
//! asked for, and gives the value or a [`WardenError`].
//!
//! * [`WardenClient`] is for the proxy's `POST /mcp`. A refused call is a
//!   [`WardenError::Veto`], whose `raw` is always the body word for word.
//! * [`LedgerClient`] is for the ledger's audit, verify and export endpoints.
//! * [`AgentsClient`] is for the identity service's registered agents.
//! * [`PoliciesClient`] is for the policy engine's managed policies.
//! * [`SimClient`] is for the simulator's admin endpoints.
//!
//! What goes into a path is percent-encoded first, so that every value stays one segment
//! of its path, but for the values `.` and `..`: they are made of unreserved characters,
//! so they are not escaped, and they are resolved as dot segments. The modules state and
//! prove this of every other value: `text` for the encoding, `route` for the paths, `http`
//! for the URLs that come of them. `read` takes a request apart as a service does, and the
//! laws of the clients say what is found there. `outside` holds what is taken for granted
//! about other crates.

pub mod agents;
pub mod client;
pub mod error;
pub mod http;
pub mod ledger;
pub mod outside;
pub mod policies;
pub mod read;
pub mod route;
pub mod sim;
pub mod text;

pub use agents::{AgentListFilter, AgentRecord, AgentState, AgentsClient};
pub use client::{
    decode_json_body, parse_veto, Auth, DenyResponse, WardenClient, WardenClientBuilder,
};
pub use error::WardenError;
pub use http::{parse_base_url, Method, Request};
pub use ledger::{
    default_chain_version, AgentNames, AuditCount, LedgerClient, RegulatoryExportOptions,
    Timestamp, Upload, VerifyResult,
};
pub use policies::{
    ConflictResponse, CreatePolicyRequest, DiffResponse, MutationResponse, PoliciesClient,
    PoliciesListResponse, PolicyDetail, PolicyRow, PolicyVersionRow, RollbackRequest,
    StateChangeRequest, UpdatePolicyRequest, VersionsListResponse,
};
pub use sim::{SimClient, SpawnedAgents};
pub use text::percent_encode;
