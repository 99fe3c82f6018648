//! What holds of the commands and queries together.

pub mod addresses;
pub mod deployments;
pub mod handing_out;
pub mod logs;
pub mod reading;
pub mod recording;
pub mod resources;
pub mod secrets;
pub mod services;
pub mod tables;
pub mod values;
pub mod wording;
pub mod writing;
