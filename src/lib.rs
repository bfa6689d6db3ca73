//! A grid survival game played by small feed-forward networks that are
//! improved by a genetic algorithm: the step engine, the ray-cast sensing,
//! the network's storage format, the agent's bookkeeping and the
//! generation-to-generation selection, each with its contract.

pub mod snake;
pub mod game;
pub mod sensing;
pub mod network;
pub mod agent;
pub mod evolution;
