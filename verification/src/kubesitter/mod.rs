//! The scheduling operator: policy model, resource logic, the controller's
//! decisions and the synchronisation with Uniskai.
pub mod cli;
pub mod controller;
pub mod laws;
pub mod model;
pub mod resources_logic;
pub mod safe_date_time;
pub mod uniskai;
