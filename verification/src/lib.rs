//! A terminal emulator's core: parser, grid, and what surrounds them.
pub mod atlas;
pub mod clipboard;
pub mod codec;
pub mod config;
pub mod engine;
pub mod grid;
pub mod image;
pub mod input;
pub mod keys;
pub mod ligatures;
pub mod mouse;
pub mod parser;
pub mod pointer;
pub mod pty;
pub mod record;
pub mod render;
pub mod search;
pub mod selection;
pub mod sequences;
pub mod sixel;
pub mod tab_bar;
pub mod tabs;
pub mod text;
pub mod theme;
pub mod workload;
