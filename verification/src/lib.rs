//! Battery Dashboard: Linux battery readings, local history and the rules
//! that turn them into dashboard, history, export and recorder responses.

pub mod text;
pub mod domain;
pub mod storage;
pub mod upower;
pub mod sysfs;
pub mod battery;
pub mod power_profile;
pub mod scheduler;
pub mod export;
pub mod commands;
pub mod recorder;
pub mod install;
pub mod anomalies;
pub mod health;
pub mod runs;
pub mod calendar;
