//! A small chat service core: the wire protocol and its framing, the login
//! handshake, the per-connection reader and writer decisions, the chatroom
//! dispatcher, and the state of the terminal front end.
pub mod board;
pub mod chatroom;
pub mod codec;
pub mod connection;
pub mod console;
pub mod frame;
pub mod login;
pub mod message;
pub mod screens;
pub mod text_box;

pub use message::{ChatrMessage, Content, Username};
