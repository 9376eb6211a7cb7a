//! A verified core for a terminal chat-completion client: layered
//! configuration resolution, an ordered conversation transcript with a
//! closed role model, the request/response exchange with a completion
//! endpoint, and the textual codec used to pipe and persist transcripts.

pub mod client;
pub mod codec;
pub mod config;
pub mod errors;
pub mod message;
pub mod request;
pub mod response;
pub mod role;
pub mod text;
