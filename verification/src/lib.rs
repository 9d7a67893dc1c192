//! The verified core of LobbyTally: the rules of the recommendation service,
//! its AI routing and answer checks, and its operator tools.

pub mod text;
pub mod num;
pub mod settings;
pub mod clock;

pub mod ai_error;
pub mod ai_types;
pub mod ai_config;
pub mod model_registry;
pub mod routes;
pub mod breaker;
pub mod router;
pub mod provider;
pub mod endpoint;
pub mod intent;
pub mod validate;
pub mod rank_laws;
pub mod summary;
pub mod web_discovery;
pub mod vector;
pub mod dates;

pub mod domain;
pub mod models;
pub mod signals;
pub mod narrative;
pub mod local_recommend;
pub mod steam_mapping;

pub mod api;
pub mod evidence;
pub mod cors;
pub mod rate_limit;
pub mod ai_limits;
pub mod client_keys;
pub mod scheduler;

pub mod tool_options;
pub mod commands;
pub mod collection;
pub mod audit;
