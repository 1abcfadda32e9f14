use vstd::prelude::*;

pub mod apply;
pub mod capability;
pub mod compile;
pub mod config_source;
pub mod decision;
pub mod defaults_report;
pub mod detect;
pub mod diff;
pub mod disk;
pub mod exec;
pub mod graphics;
pub mod install;
pub mod kernel_cmdline;
pub mod locales;
pub mod manifest;
pub mod package_check;
pub mod preflight;
pub mod text;
pub mod welcome;
pub mod world;

verus! {
} // verus!
