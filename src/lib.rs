//! A countdown that terminates a chosen process: the process catalog with its
//! search filter, the timer arithmetic, and the state machine that ties key
//! presses, clock ticks and termination results together.

pub mod catalog;
pub mod duration;
pub mod machine;
pub mod text;
pub mod timer;
