pub mod backend;
pub mod capture;
pub mod collect;
pub mod config;
pub mod estimator;
pub mod geometry;
pub mod instruction;
pub mod live;
pub mod live_log;
pub mod measurement;
pub mod scalar;
pub mod shift_file;
pub mod stats;
pub mod system;
pub mod text;
pub mod toc_cache;
pub mod ui;
pub mod yaml;
