//! Session logic of Ollama Studio, a desktop chat client for a local Ollama
//! server: chat tabs and their messages, the rules that drive a streamed
//! generation, the request that is sent to the server and the handling of
//! the streamed reply.  Everything here is verified, but for three small
//! trusted wrappers around the standard library and Base64 encoding; the
//! window, the network and the disk are driven by the application around it.

pub mod chat;
pub mod classic;
pub mod conversation;
pub mod display;
pub mod generation_laws;
pub mod models;
pub mod request;
pub mod session;
pub mod session_laws;
pub mod step_laws;
pub mod tab_laws;
pub mod settings;
pub mod stream;
pub mod tabs;
pub mod text;
pub mod theme;
