use vstd::prelude::*;

pub mod json;
pub mod text;
pub mod search;
pub mod contract;
pub mod simple;
pub mod legacy;
pub mod conformance;
pub mod scope;
pub mod pattern;
pub mod ctx;
pub mod resolver;
pub mod json_text;
pub mod templating;
pub mod error;
pub mod executors;
pub mod versions;
pub mod signature;
pub mod registry;
pub mod router;
pub mod event2msg;
pub mod msg2event;
pub mod loader;
pub mod cli;
pub mod schema;
pub mod examples;
