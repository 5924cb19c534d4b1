//! A step-execution backend for behaviour-driven test runs.
//!
//! A driver, which is another program, reads the scenarios of a run and asks
//! this library to match and to run their steps. It connects once and sends
//! one request per line; each request is read, answered against the step
//! registry and the world of the run, and the answer is written as one line.
//!
//! The modules, from the ground up:
//!
//! - `text`: characters, strings and decimal numerals;
//! - `json`, `parse`, `json_laws`: JSON values, their text, and the law that
//!   what is written is read back;
//! - `pattern`: regular expressions, compiled and run by the `regex` crate;
//! - `args`: the kinds of a step's parameters and the conversion of arguments;
//! - `step`, `registry`: worlds, handlers and the list of registered steps;
//! - `protocol`, `wire`, `wire_laws`: the messages, their form on the wire,
//!   and the law that nothing is lost there;
//! - `runner`: the dispatch of one request;
//! - `server`: the life of the server, from listening to stopping;
//! - `config`: the settings of a run and what is launched from them.
//!
//! Nothing here opens a socket or starts a process: the caller waits, reads
//! and writes, and is told by `Server::handle` what each event leads to.

pub mod args;
pub mod config;
pub mod json;
pub mod json_laws;
pub mod parse;
pub mod pattern;
pub mod protocol;
pub mod registry;
pub mod runner;
pub mod server;
pub mod step;
pub mod text;
pub mod wire;
pub mod wire_laws;

pub use crate::args::{ConversionError, ParamKind, StepArg};
pub use crate::config::{
    create_config, ruby_command, CommandLine, CucumberConfig, Launch, Platform, Registrar,
};
pub use crate::json::Json;
pub use crate::protocol::{Request, Response};
pub use crate::registry::{
    InvalidPatternError, MatchArg, PendingMatch, StepDefinition, StepRegistry,
};
pub use crate::runner::{PendingStep, WorldRunner};
pub use crate::server::{Lifecycle, Phase, Server, ServerAction, ServerEvent};
pub use crate::step::{StepHandler, StepOutcome, World};
