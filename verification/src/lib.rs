pub mod bytes;
pub mod message;
pub mod packer_events;
pub mod plugin_state;
pub mod plugin_types;
pub mod seqs;
pub mod text;
pub mod hcl_tree;
pub mod string_map;
pub mod terraform_parse;
pub mod paths;
pub mod packer_template;
pub mod packer_parse;
pub mod packer_manager;
pub mod download;
pub mod command;
pub mod runtime;
pub mod cli_args;
pub mod machines;
pub mod terraform;
pub mod ansible;
pub mod plugins;
pub mod image_builder;
pub mod hcl_utils;
pub mod yaml;
pub mod http_api;
pub mod packer_build;
pub mod modules;
