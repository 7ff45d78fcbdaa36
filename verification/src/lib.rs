use vstd::prelude::*;

pub mod json;
pub mod text;
pub mod strmap;
pub mod output;
pub mod error;
pub mod config;
pub mod field_resolver;
pub mod api;
pub mod http;
pub mod cli;
pub mod schema;
