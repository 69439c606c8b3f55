//! A client for a build server that speaks length-framed JSON-RPC: the frame
//! codec, the envelope classifier, the state machine that decides how a
//! submitted command ended, and the settings of the launcher that runs sbt
//! when no server is up.
pub mod decimal;
pub mod frame;
pub mod json;
pub mod envelope;
pub mod exit_status;
pub mod message;
pub mod session;
pub mod launcher;
