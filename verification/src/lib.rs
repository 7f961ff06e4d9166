//! Cocoon: a small rootless Linux container runtime you can read end to end.
//!
//! A **bundle** is a directory with a `rootfs/` subdirectory and a `cocoon.conf`
//! file. [`Config`] parses the file, [`Plan`] turns it into the decision to
//! execute, and the executor unshares namespaces, pivots into the root filesystem
//! and runs the process. The lifecycle is modeled by [`Container`].
//!
//! This crate makes the decisions, and each of them is verified against its
//! contract. It makes no system call: what the system is asked to do, and in
//! which order, it hands out as data, and what came of it, it takes as data.
//!
//! - [`config`]: the config file; [`bundle`]: what it belongs to.
//! - [`plan`]: what a run does.
//! - [`state`]: the lifecycle of a container.
//! - [`launch`], [`sandbox`], [`script`], [`seccomp`], [`cgroup`]: from a plan to an
//!   isolated, deprivileged, limited process.
//! - [`supervisor`], [`monitor`], [`outcome`]: watching a run and reporting what came
//!   of it.
//! - [`spelling`]: how an outcome is written as JSON, and how that reads.
//! - [`mcp`], [`json`]: the sandbox as a tool that an agent can call.
//! - [`rootfs`]: a default root filesystem; [`cli`]: the command line.
//! - [`text`]: text on characters, which the others are built on.
//!
//! The modules whose names end in `laws` state what holds across functions.
pub mod argv_laws;
pub mod bundle;
pub mod call_laws;
pub mod cgroup;
pub mod child_laws;
pub mod cli;
pub mod config;
pub mod config_laws;
pub mod entry_laws;
pub mod error;
pub mod json;
pub mod json_laws;
pub mod launch;
pub mod launch_laws;
pub mod mcp;
pub mod mcp_laws;
pub mod monitor;
pub mod monitor_laws;
pub mod outcome;
pub mod plan;
pub mod plan_laws;
pub mod rootfs;
pub mod run_laws;
pub mod sandbox;
pub mod sandbox_laws;
pub mod script;
pub mod seccomp;
pub mod spelling;
pub mod state;
pub mod supervisor;
pub mod supervisor_laws;
pub mod text;
pub mod text_laws;
pub mod tool_laws;

pub use bundle::{load_bundle, plan_bundle, Bundle, DEFAULT_CONFIG};
pub use config::Config;
pub use error::{Error, Result};
pub use outcome::Outcome;
pub use plan::{Namespace, Plan};
pub use state::{Container, State};
