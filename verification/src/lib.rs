//! A verified core for the Drain HTTP server.
use vstd::prelude::*;

pub mod text;
pub mod fields;
pub mod error;
pub mod request;
pub mod codec;
pub mod response;
pub mod config;
pub mod body;
pub mod cgi;
pub mod mime;
pub mod date;
pub mod routing;
pub mod pages;
pub mod dynamic;
pub mod handler;
pub mod gateway;
pub mod laws;

verus! {
} // verus!
