//! Accounting of the time spent per web domain, with a work/break phase timer.
//!
//! The library holds the state machine and the rules: the tracker that
//! accrues seconds per domain, the phase timer, the heuristic that finds a
//! domain in a window title, the framing of the pipe protocol and the
//! decisions taken for each message of a network connection.

pub mod domain;
pub mod native_messaging;
pub mod pomodoro;
pub mod report;
pub mod scheduler;
pub mod text;
pub mod tracker;
pub mod websocket_server;
