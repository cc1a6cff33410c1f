//! Bidirectional network mapper: packet codecs, the control protocol's
//! messages and the decisions of a test session, with their contracts.

pub mod cli;
pub mod control;
pub mod orchestrator;
pub mod output;
pub mod packet;
pub mod test;
pub mod text;
