//! Verified core of the Nextflow-on-Azure dispatcher: the rules by which the
//! dispatcher builds `nxfutil` command lines, finds the Key Vault secrets a
//! Nextflow config needs, summarises workflow status messages, follows a
//! container-instance deployment and drives a Nextflow run.

pub mod text;
pub mod config_parser;
pub mod server;
pub mod settings;
pub mod command;
pub mod status;
pub mod container;
pub mod payloads;
pub mod nxfutil;
pub mod weblog;
pub mod auth;
