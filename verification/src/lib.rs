//! Game-side logic of a Ren'Py extension module (greeting, background
//! computation, a save/rollback-friendly score tracker) together with the
//! decision logic of its build and distribution tool.

pub mod text;
pub mod greeting;
pub mod computation;
pub mod tracker;
pub mod platform;
pub mod build_run;
pub mod config;
pub mod manifest;
pub mod setup;
pub mod watch;
