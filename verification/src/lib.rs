use vstd::prelude::*;

pub mod core_dsp;
pub mod jack_ringbuffer;
pub mod md5;
pub mod text;
pub mod core_persistence;
pub mod xml;
pub mod core_persistence_parse;
pub mod paths;
pub mod browser;
pub mod stacktrace;
pub mod datatypes;
pub mod blocks;
pub mod browser_types;
pub mod core_state;
pub mod event;
pub mod acceptance;
pub mod audio_format;
pub mod app_services;
pub mod startup;
pub mod dsp_profile;
pub mod fluid;
pub mod mixer;
pub mod config_model;
pub mod processing;
pub mod persistence_store;
pub mod renamer;
pub mod fweelin_app;
pub mod audio_block;
pub mod event_manager;
pub mod event_params;
pub mod runtime_config;
pub mod bound_event;
pub mod binding_plan;
pub mod includes;
pub mod expression_text;
pub mod binding_registry;
pub mod variables;

verus! {
} // verus!
