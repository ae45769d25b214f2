//! A minimal in-memory key-value service speaking a textual, length-prefixed
//! request/response protocol. This crate holds the verified core: the request
//! decoder, the expiring store, and the dispatcher that maps one decoded
//! request and the store's state to a reply and a store update.
mod clock;
pub mod command;
pub mod database;
pub mod laws;
pub mod record;
pub mod resp;
pub mod server;

pub use command::{Command, DecodeError, SetParams};
pub use database::Database;
pub use record::Record;
pub use server::{get_master_addr, handle_req, handle_req_now};
pub use resp::convert_to_bulk_string;
pub use resp::null_bulk_string;
