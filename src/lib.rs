//! Local provisioning and supervision of a text-generation inference server:
//! the decisions behind hardware-based model selection, runtime and model
//! acquisition, mirror ordering, archive safety, and the server supervisor.

pub mod acquire;
pub mod archive;
pub mod catalog;
pub mod config;
pub mod download;
pub mod mirror;
pub mod orchestrator;
pub mod probe;
pub mod supervisor;
pub mod text;
pub mod tier;
