//! Random public IPv4 generation, CIDR expansion and naabu result handling.
pub mod text;
pub mod clock;
pub mod ipv4;
pub mod random;
pub mod cli_ipgen;
pub mod cli_targets;
pub mod gui_ip_generator;
pub mod naabu_output;
pub mod cli_scan;
pub mod gui_models;
pub mod gui_scanner;
pub mod gui_app;
pub mod web_models;
pub mod web_naabu;
pub mod web_api;
