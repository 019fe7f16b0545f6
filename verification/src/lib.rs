//! Game logic of a platform fighter with an integrated character editor:
//! fighter frame editing, menus, netplay decisions, the command line and
//! the engine's data-format versioning.

pub mod action;
pub mod fighter;
pub mod frame;
pub mod frame_edit;
pub mod menu;
pub mod text;
pub mod os_input;
pub mod command_line;
pub mod legacy;
pub mod input;
pub mod input_history;
pub mod game;
pub mod editor;
pub mod controller_map;
pub mod config;
pub mod json_upgrade;
pub mod package;
pub mod network;
pub mod cli;
pub mod node;
pub mod character_select;
pub mod menu_flow;
