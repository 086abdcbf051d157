//! Service resolution and command orchestration for the launch daemon:
//! cross-domain entry lookup with a label cache, roster merging, the
//! presentation merge that feeds the service list, and the command resolver
//! that turns a user intent into primitive daemon operations.
pub mod enums;
pub mod config;
pub mod service;
pub mod command;
pub mod view;
