//! Channels for a multi-agent Discord setup.
//!
//! A message from Discord climbs a ladder of decisions: does it reach the agent
//! at all ([`discord`]), is it on topic ([`topic`]), which of several agents that
//! reacted takes it ([`reaction`], [`classifier`]), and does the agent handle it
//! or hand it on ([`routing_classifier`], [`boardroom`], [`registry`]).
//! [`gateway`] decides what the connection to Discord does next, and [`adapter`]
//! says which requests to make to the REST API.
//!
//! Everything here computes on plain values and does no input or output. Each
//! type has a mathematical model, its view, and each function states its result
//! over those models. What holds of the library as a whole is stated by the proof
//! functions whose names begin with `law_`.

pub mod adapter;
pub mod boardroom;
pub mod classifier;
pub mod discord;
pub mod gateway;
pub mod json;
pub mod reaction;
pub mod registry;
pub mod routing_classifier;
pub mod score;
pub mod text;
pub mod text_map;
pub mod time;
pub mod topic;
pub mod types;
