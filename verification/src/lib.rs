//! Stellr: the issue-graph domain, GitHub relationship scanning, device
//! authorization, desktop routing and the runtime decisions of the cockpit.

pub mod history;
pub mod model;
pub mod text;
pub mod derive;
pub mod states;
pub mod textref;
pub mod auth;
pub mod credentials;
pub mod device_flow;
pub mod provider;
pub mod spaces;
pub mod urls;
pub mod target;
pub mod route_state;
pub mod theme;
pub mod desktop;
pub mod cli;
pub mod runtime;
pub mod entrypoints;
pub mod order;
pub mod ledger;
pub mod poll;
pub mod github_history;
pub mod github_sync;
pub mod session;
pub mod cache;
