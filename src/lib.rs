//! A rule-linking engine: named numeric variables and boolean rules are loaded
//! from a JSON configuration, rendered as a Lua script, bound to the runtime's
//! upvalue slots, and re-evaluated as the variables change.
//!
//! - `value`: tagged values exchanged with the scripting runtime;
//! - `json`: the parsed configuration document;
//! - `config`: the session and how a document yields it;
//! - `script`: the script that encodes the rules;
//! - `engine`: slot discovery, updates and rule results.
pub mod config;
pub mod engine;
pub mod json;
pub mod script;
pub mod value;
