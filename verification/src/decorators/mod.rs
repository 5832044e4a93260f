//! Interceptors that the library brings along.

pub mod httponly_header_authorization;
