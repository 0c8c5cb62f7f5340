//! Client-side model of a load balancer's stats socket: the commands it
//! accepts and decoders for the responses it gives.
//!
//! - [`command`]: a command and a batch of commands, validated and encoded
//!   for the wire.
//! - [`env`]: the environment of the server process, from `show env`.
//! - [`info`]: the description of the server process, from `show info`, in
//!   its key/value form and in its JSON form.
//! - [`stat`]: the statistics dump, from `show stat`, in its CSV form and in
//!   its JSON form.
//! - [`bind`]: the typed binding that all decoders share.
//! - [`formats`], [`lines`], [`text`]: the wire formats and the text
//!   handling beneath them.
//! - [`outside`]: what is taken on trust from other crates.
//!
//! Every decoder is a function from bytes to a record or an error. Its
//! contract says which of the two each input gives.

pub mod bind;
pub mod command;
pub mod env;
pub mod formats;
pub mod info;
pub mod lines;
pub mod outside;
pub mod stat;
pub mod text;

pub use command::{Command, Commands};
pub use env::EnvironmentVariables;
pub use info::Info;
pub use stat::{Statistic, Statistics};
