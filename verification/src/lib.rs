//! Protocol core of the Analog3 mission-control daemon: the CAN frame
//! dispatcher, the module registry, the stream manager, the property codec,
//! and the per-command protocol state machines.
//!
//! Everything here is plain data and decisions.  The surrounding process
//! (the CAN driver, the TCP console, the async executor) hands frames and
//! operator commands in and carries frames and replies out.

pub mod a3_modules;
pub mod analog3;
pub mod config;
pub mod error;
pub mod frame;
pub mod mission_control;
pub mod queue;
pub mod schema;
pub mod streams;
pub mod text;
pub mod user_session;
