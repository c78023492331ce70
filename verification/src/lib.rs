//! Verified terminal logic: key bindings and key translation, paste encoding,
//! mouse reporting and selection, Kitty graphics parsing, inline object
//! bookkeeping, configuration rules and mesh topology.

pub mod bindings;
pub mod config;
pub mod images;
pub mod inline;
pub mod key_input;
pub mod keyboard;
pub mod keys;
pub mod kitty;
pub mod maps;
pub mod mesh;
pub mod model;
pub mod mouse;
pub mod numbers;
pub mod paste;
pub mod placeholders;
pub mod presentation;
pub mod screen;
pub mod selection;
pub mod sequences;
pub mod systems;
pub mod text;

