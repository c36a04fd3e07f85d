//! The logic of a terminal manager for a local Minecraft server: the server's
//! data files, the application state behind the screens, the tunnel service's
//! requests and replies, and the console session's commands.
//!
//! Reading disks, sockets, clocks and keyboards is left to the program around
//! this library; it hands over plain values and performs what comes back.

pub mod text;
pub mod json;
pub mod sizes;
pub mod natfrp;
pub mod uuid;
pub mod clock;
pub mod properties;
pub mod players;
pub mod processes;
pub mod worlds;
pub mod console;
pub mod state;
pub mod state_laws;
pub mod geometry;
pub mod screen;
pub mod text_laws;
pub mod server_laws;
pub mod key_laws;
pub mod service_laws;
pub mod screen_laws;
pub mod call_laws;
