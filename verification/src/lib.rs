//! A mock store for an HTTP mock server: it keeps mock definitions in the
//! order in which they were set and answers an incoming request with the
//! response of the first mock whose expectations the request meets.

pub mod handlers;
pub mod util;
