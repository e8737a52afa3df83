//! Core logic of an agent workbench: message replay across model
//! protocols, JSON repair, hashing, skill discovery and task rules.
#![allow(unused_imports)]

pub mod anthropic;
pub mod anthropic_stream;
pub mod commands;
pub mod conversation_flow;
pub mod db_schema;
pub mod entities;
pub mod hash;
pub mod json_parse;
pub mod json_value;
pub mod legacy_responses;
pub mod numbers;
pub mod model_client;
pub mod paths;
pub mod pi_types;
pub mod responses;
pub mod responses_stream;
pub mod skills;
pub mod task_loop;
pub mod text;
pub mod tools;
pub mod tool_ids;
pub mod transform;
pub mod web_rules;
