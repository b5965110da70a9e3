//! A motion-triggered music player: a durable, shuffled play queue and the
//! sensor-driven control loop around it, with the decisions verified.

pub mod fault;
pub mod library;
pub mod queue;
pub mod player;
