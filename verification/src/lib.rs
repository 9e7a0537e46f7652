pub mod ast;
pub mod client;
pub mod deep_object;
pub mod did;
pub mod did_laws;
pub mod error;
pub mod grammar;
pub mod network;
pub mod search;
pub mod text;
pub mod vault;
