//! A DAG workflow orchestration library: workflow model, structural
//! validation, linting, diagram export, execution planning and the
//! supporting configuration types, with their behaviour stated as
//! contracts and proved.

pub mod db_utils;
pub mod text;
pub mod graph;
pub mod ids;
pub mod node;
pub mod workflow;
pub mod validation;
pub mod engine;
pub mod storage;
pub mod tls;
pub mod server;
pub mod linter;
pub mod rest;
pub mod execution;
pub mod code_executor;
pub mod testing;
pub mod json_schema;
pub mod rate_limit;
pub mod visualization;
pub mod dfs;
pub mod templating;
pub mod executors;
pub mod scheduler;
pub mod query_builder;
pub mod webhook;
pub mod builder;
pub mod laws;
pub mod auth;
pub mod event_bus;
pub mod conditional;
pub mod schedule;
pub mod template;
pub mod rest_response;
pub mod variable_store;
pub mod sse;
pub mod node_step;
