//! Per-turn decision engine for a robot in a resource-gathering game.
//!
//! The robot collects sample specifications, researches them, gathers the
//! molecules their production needs, and turns completed samples into score.
//! Each turn a snapshot of the world is handed to [`memory::Memory`], which
//! keeps the robot's current goal and answers with one [`command::Command`].

pub mod molecules;
pub mod module;
pub mod sample;
pub mod robot;
pub mod carried_by;
pub mod command;
pub mod connect_options;
pub mod memory;
pub mod token;
pub mod input_reading;
