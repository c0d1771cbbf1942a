//! Webhook-triggered build-and-deploy orchestration: the decisions of the
//! pipeline, the per-project build gate and the builder lifecycle, with the
//! validation of configuration and of credentials that feed them.
pub mod api;
pub mod auth;
pub mod buildx;
pub mod command;
pub mod config;
pub mod gate;
pub mod kube;
pub mod pipeline;
pub mod project;
pub mod repo;
pub mod text;
