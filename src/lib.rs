pub mod address;
pub mod bytes;
pub mod command;
pub mod inbound;
pub mod laws;
pub mod registry;
pub mod state;
