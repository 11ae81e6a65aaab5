//! Translation between the Agent Client Protocol and the Pi CLI's RPC protocol.

pub mod json;
pub mod text;
pub mod records;
pub mod translate;
pub mod options;
pub mod paths;
pub mod index;
pub mod acp;
pub mod pi_rpc;
pub mod prompt;
pub mod requests;
pub mod replies;
pub mod commands;
pub mod dialog;
pub mod session;
pub mod flow;
pub mod adapter;
pub mod rules;
pub mod process;
pub mod laws;
pub mod histories;
pub mod words;
pub mod shown;
pub mod told;
pub mod offered;
pub mod received;
pub mod asked;
pub mod piped;
pub mod kept;
pub mod conduct;
