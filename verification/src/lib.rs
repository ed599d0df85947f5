//! Verified core of the susi substrate: prompt classification, prompt
//! formatting, model-ladder planning, input governance and scheduling.
use vstd::prelude::*;

pub mod text;
pub mod error;
pub mod intent;
pub mod hardware;
pub mod models;
pub mod engine;
pub mod manifold;
pub mod daemon;
pub mod gawd;
pub mod genome;
pub mod vllm;
pub mod fleet;
pub mod truth;
pub mod cli;
pub mod reflex;
pub mod server;
pub mod security;
pub mod digests;
pub mod mission;
pub mod admin;
pub mod queue;
pub mod tools;
pub mod evidence;
pub mod compliance;
pub mod swarm;
pub mod routing;
pub mod gmcp;
pub mod pulse;
pub mod store;
pub mod factory;
pub mod bloat;
pub mod lifecycle;
pub mod pkb;
pub mod provenance;
pub mod reasoning;
pub mod discovery;
pub mod dispatch;
pub mod gguf;

verus! {

} // verus!
