//! Quota tracking, retry policy, response normalisation and schema-drift
//! analysis for a client of a quota-limited market-data API.

pub mod accumulator;
pub mod api_config;
pub mod cli_args;
pub mod config;
pub mod csv_handler;
pub mod domain;
pub mod error;
pub mod executor;
pub mod granular_executor;
pub mod http_client;
pub mod index_generator;
pub mod json_persister;
pub mod logic;
pub mod markdown_writer;
pub mod mock_client;
pub mod ports;
pub mod progress;
pub mod quota;
pub mod retry;
pub mod schema_analyzer;
pub mod sorted;
pub mod state_file;
pub mod text;
pub mod ticker_map;
pub mod util;
