//! A multi-armed bandit simulation: hidden arm win rates, an epsilon-greedy
//! agent that keeps exact running means of observed rewards, the loop that
//! lets them play against each other, and a naive running average.
pub mod agent;
pub mod average;
pub mod bandit;
mod draw;
pub mod simulation;
