//! Session reconciliation for endpoint login, logout and hardware reports.
//!
//! Agents on endpoints report logins, logouts and hardware inventories.
//! The server checks each report, resolves it to a session and appends it
//! to the event table; who is logged in where, and since when, is read off
//! the table. A machine that logs in again without having logged out has
//! its stale session closed by a logout that the server makes up.
//!
//! - [`handlers`] checks a request and handles it; [`guarantees`] proves
//!   what that guarantees.
//! - [`resolver`] decides which session an event joins; [`database`] is the
//!   event table and its lookups; [`session`] makes session identifiers.
//! - [`models`] and [`config`] hold the records and the server's
//!   configuration.
//! - [`client`], [`client_config`] and [`info_map`] are the agent's side.
//! - [`text`] holds string helpers; [`clock`] and [`digest`] are the doors
//!   to `chrono` and `md5`.

pub mod client;
pub mod client_config;
pub mod clock;
pub mod config;
pub mod database;
pub mod digest;
pub mod guarantees;
pub mod handlers;
pub mod info_map;
pub mod models;
pub mod resolver;
pub mod session;
pub mod text;
