//! Synchronisation of mail redirection ("virtual alias") tables with remote
//! mail servers: the alias file format, the server model, the push protocol
//! and the request handling that drives them.

pub mod alias;
pub mod backend;
pub mod codec;
pub mod configuration;
pub mod messages;
pub mod push;
pub mod registry;
pub mod server;
pub mod text;
