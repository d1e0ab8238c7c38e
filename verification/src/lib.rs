//! The handlers behind the EVMcrispr API: a proxy for servers on an allowlist, a proxy for
//! reading public pages, a web search, token lists, the ABIs of verified contracts, and the
//! JSON-RPC endpoints of the EEZ chains.
//!
//! A handler that waits for something outside is a row of steps. Each step says what to do
//! next and holds what the handler goes on with.

pub mod abi;
pub mod cache;
pub mod chains;
pub mod cors;
pub mod cors_proxy;
pub mod eez;
pub mod fetch_proxy;
pub mod http;
pub mod json;
pub mod laws;
pub mod path;
pub mod proxy;
pub mod search;
pub mod text;
pub mod timestamps;
pub mod tokenlist;
pub mod tokens;
pub mod transaction;
