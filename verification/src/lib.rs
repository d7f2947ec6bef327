//! Game-side logic of the Novluno client for the Redmoon Online data files:
//! the data model of maps, RMD data files and list files, the collision grid,
//! asset caches, map spawning plans, player movement and animation, and the
//! classic input/state handling.
pub mod constants;
pub mod entity;
pub mod collision;
pub mod text;
pub mod asset_loader;
pub mod paths;
pub mod resources;
pub mod map_spawn;
pub mod systems;
pub mod player;
pub mod input;
pub mod game;
pub mod character;
pub mod sprite_manager;
pub mod config;
pub mod classic_render;
pub mod camera;
