pub mod actions;
pub mod chance;
pub mod command;
pub mod command_collection;
pub mod constants;
pub mod data_collection;
pub mod data_loading;
pub mod file_buffer;
pub mod file_util;
pub mod game;
pub mod help_string_collection;
pub mod info_string_collection;
pub mod item;
pub mod item_collection;
pub mod inventory;
pub mod item_list;
pub mod laws;
pub mod location;
pub mod location_collection;
pub mod player;
pub mod player_items;
pub mod player_transfer;
pub mod player_move;
pub mod string_collection;
pub mod terminal;
pub mod text;
