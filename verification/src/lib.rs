//! Persistence of a deployer: its services, deployments, logs, secrets and cached resources.
//!
//! Each change of the database is a [`command::Command`] and each question to it one of the
//! queries in [`query`]. Both come as an SQL statement with its bound values, and with a meaning:
//! what the command does to the tables, and which rows the query asks for. [`tables::Tables`]
//! carries commands and queries out in memory, and [`persistence::Persistence`] holds the
//! services of a project that way. What takes several turns with a database or with the service
//! that records resources is cut into steps: [`lookup`], [`recorder`], [`resources`] and
//! [`address`]. The [`laws`] say what holds of all of them together.

pub mod address;
pub mod command;
pub mod ids;
pub mod json;
pub mod laws;
pub mod lookup;
pub mod order;
pub mod persistence;
pub mod query;
pub mod recorder;
pub mod resources;
pub mod rows;
pub mod sql;
pub mod tables;
pub mod text_order;
