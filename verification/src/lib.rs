//! Kemuri: latency monitoring logic with verified contracts.

pub mod text;
pub mod order;
pub mod clock;
pub mod duration;
pub mod percentage;
pub mod ids;
pub mod kinds;
pub mod histogram;
pub mod sample_blob;
pub mod probe;
pub mod ping;
pub mod tcp;
pub mod http;
pub mod dns;
pub mod synthetic;
pub mod rows;
pub mod alerts;
pub mod json;
pub mod rollup;
pub mod buckets;
pub mod rules;
pub mod notify;
pub mod events;
pub mod failure_log;
pub mod writer;
pub mod config;
pub mod config_laws;
pub mod resolution;
pub mod canonical;
pub mod api;
pub mod summary;
pub mod listing;
pub mod round_list;
pub mod queries;
pub mod series;
pub mod scheduler;
pub mod registry;
pub mod worker;
pub mod server;
