//! Verified core of the IBEX benchmark bot: artifact validation, dispatch
//! verification, markdown sanitisation and PR comment composition.

pub mod text;
pub mod error;
pub mod float;
pub mod model;
pub mod config;
pub mod verify;
pub mod ranking_quality_validate;
pub mod write_pipeline_validate;
pub mod extraction_quality_validate;
pub mod hnsw_validate;
pub mod validate;
pub mod artifact;
pub mod sanitize;
pub mod markdown;
pub mod render;
pub mod sections;
pub mod github;
pub mod publish;
pub mod publish_flow;
pub mod cli;
