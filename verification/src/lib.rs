//! A generic Monte Carlo Tree Search engine using the UCT selection policy,
//! together with two example games (a take-away game and a worker-placement
//! farming game) that implement its game-state capability contract.

pub mod agricolaaction;
pub mod agricolastate;
pub mod board;
pub mod farmtile;
pub mod fieldtile;
pub mod majorimprovement;
pub mod misc;
pub mod nim;
pub mod pasture;
pub mod player;
pub mod playermat;
pub mod node;
pub mod rng;
pub mod search;
pub mod scoring;
pub mod state;
