//! Verified core of the Cherenkov radiation monitoring system.
mod text;
pub mod cache;
mod clock;
pub mod concurrent;
pub mod dedup;
pub mod pipeline;
pub mod ordering;
pub mod storage;
pub mod auth;
pub mod access;
pub mod notify;
pub mod alerts;
pub mod email;
pub mod webhook;
pub mod websocket;
pub mod common;
pub mod ml;
pub mod conversion;
pub mod evaluation;
pub mod onnx_export;
pub mod quality;
pub mod graphql;
pub mod facilities;
pub mod ingest;
pub mod query;
pub mod registry;
pub mod rest;
pub mod feeds;
pub mod firms;
pub mod gfs;
