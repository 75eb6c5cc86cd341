//! Matchmaking for game servers on Edgegap: names and keys in NATS, session requests, connect
//! tokens, and what a game server tells the matchmaker.
//!
//! The library decides and computes; talking to NATS, Edgegap and the game is done around it.
pub mod admission;
pub mod arbitrium_env;
pub mod edgegap_context;
pub mod flags;
pub mod json;
pub mod nats;
pub mod nats_setup;
pub mod plugin;
pub mod private_key;
pub mod protocol;
pub mod run_laws;
pub mod session_laws;
pub mod session_request;
pub mod session_service;
pub mod settings;
pub mod text;
pub mod text_laws;
pub mod token;
pub mod view_laws;
