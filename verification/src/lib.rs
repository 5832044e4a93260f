//! Request/response handling core of an HTTP server toolkit: payload streams,
//! interceptor chains and a pattern-based router, with machine-checked contracts.

pub mod application_context_trait;
pub mod body;
pub mod body_ext;
pub mod body_utils;
pub mod chain;
pub mod content_type;
pub mod cookies;
pub mod decorators;
pub mod error;
pub mod filestream;
pub mod frame;
pub mod headers;
pub mod request_context_trait;
pub mod request_handler;
pub mod response;
pub mod routing;
pub mod response_body;
