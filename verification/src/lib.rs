//! wgd: WireGuard connections on a workstation, kept by a privileged daemon.
//!
//! This library is the decisions of it. Nothing in it reads or writes files, runs
//! programs or talks over sockets: a command or a request names the next operation
//! and what it will wait for, somebody carries the operation out, and the answer is
//! handed back to `resume`. So whatever the machine answers, what is done about it
//! is settled here.
//!
//! - [`privileged`]: the daemon's side, requests against the connection store.
//! - [`privileged_api`] and [`client`]: what the two sides say to each other.
//! - [`connection_cli`], [`launchd`] and [`session_agent`]: the commands.
//! - [`text`], [`paths`] and [`launchctl`]: what they are written with.

pub mod cli;
pub mod client;
pub mod connection_cli;
pub mod error;
pub mod identity;
pub mod launchctl;
pub mod launchd;
pub mod paths;
pub mod privileged;
pub mod privileged_api;
pub mod session_agent;
pub mod text;
