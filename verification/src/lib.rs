//! Verified core of a small pixel-art game and its asset pipeline: the
//! rectangle atlas packer, RGBA image editing, the Aseprite binary header
//! reader, bitmap font glyph preparation, button input handling and the
//! menu / immediate-mode GUI decision logic, and the file names used to
//! hot-reload the game library.
pub mod image;
pub mod text;
pub mod font;
pub mod atlas;
pub mod aseprite;
pub mod sprite_sheet;
pub mod input;
pub mod gui;
pub mod menu;
pub mod draw;
pub mod timer;
pub mod audio;
pub mod game;
pub mod math;
pub mod hot_reload;
