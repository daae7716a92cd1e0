//! Client-side core of a consensus engine's remote procedure interface:
//! the query language of event subscriptions, the response envelope, the
//! router that shares server-side subscriptions among local listeners, and
//! the decisions of the polling and paging helpers.

pub mod client;
pub mod date;
pub mod error;
pub mod literal;
pub mod query;
pub mod response;
pub mod router;
pub mod table;
pub mod text;
