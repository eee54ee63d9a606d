//! A two-pilot Armored Core match: the machines, the rounds and the score,
//! together with the frame timer that drives looping sprite animations.

pub mod animation;
pub mod config;
pub mod part;
pub mod pilot;
pub mod player;
pub mod report;
pub mod round;
pub mod simulation;
