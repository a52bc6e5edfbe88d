//! Core logic of a grading worker: the process monitor's decisions, the
//! sandbox plan, build planning and error classification, the storage
//! layout, job bookkeeping and the coordinator dialogue's decisions.

pub mod build_props;
pub mod builder;
pub mod config;
pub mod jobs;
pub mod limits;
pub mod merge;
pub mod model;
pub mod monitor;
pub mod processor;
pub mod rpc;
pub mod runner;
pub mod storage;
pub mod style;
pub mod text;
pub mod yaml;
