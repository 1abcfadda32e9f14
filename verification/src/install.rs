//! Planning the copy of a live system onto a freshly provisioned disk.
//!
//! The planner decides; the filesystem and the source image are read by the
//! caller, which hands in what it found.
pub mod boot;
pub mod host;
pub mod login;
pub mod planner;
pub mod portage;
pub mod services;
pub mod steps;
pub mod target_files;
pub mod users;

pub use planner::{plan_system_install, SourceImage, SystemInstallError};
pub use steps::{StepKind, SystemInstallPlan, SystemInstallStep};
