//! What the handlers promise, in terms of requests and answers.

pub mod abi;
pub mod answers;
pub mod cache;
pub mod chains;
pub mod eez;
pub mod proxies;
pub mod redirects;
pub mod search;
pub mod text;
pub mod tokens;
