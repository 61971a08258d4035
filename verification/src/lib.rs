//! The decisions of a Neovim front end for debug adapters, with their proofs.

pub mod text;
pub mod whitespace;
pub mod number;
pub mod str_map;
pub mod json;
pub mod breakpoints;
pub mod codec;
pub mod schema;
pub mod protocol;
pub mod output;
pub mod debuggers;
pub mod listing;
pub mod neovim;
pub mod value;
pub mod window;
pub mod buffers;
pub mod signs;
pub mod path;
pub mod handler;
pub mod events;
pub mod processor;
pub mod commands;
pub mod session;
pub mod debugpy;
pub mod node;
pub mod joined;
