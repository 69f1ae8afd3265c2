//! Kubesitter: scheduling policies that put Kubernetes workloads to sleep
//! and wake them up again.
pub mod text;
pub mod time;
pub mod string_map;
pub mod resources;
pub mod kubesitter;
pub mod work_time;
pub mod error;
pub mod uniskai_sdk;
pub mod uniskai;
pub mod controller;
pub mod schedule_controller;
