//! A tile-based simulation and roguelike engine: the map grid and its
//! terrain rules, map-generation helpers, components of the game's entities,
//! the decision tables of its input and AI, and the layout logic of its text
//! consoles.

pub mod colors;
pub mod tiles;
pub mod utils;
pub mod map;
pub mod rng;
pub mod system_fire;
pub mod ai;
pub mod components;
pub mod effects;
pub mod entity_factory;
pub mod blueprints;
pub mod game_modes;
pub mod config;
pub mod cp437;
pub mod console;
pub mod screen;
pub mod snapshots;
pub mod map_builders;
pub mod bsp_farm;
pub mod simple_map;
pub mod village;
pub mod item_use;
pub mod game;
pub mod command;
pub mod melee;
pub mod input;
pub mod heatmaps;
pub mod intent;
pub mod ai_system;
pub mod panels;
pub mod map_view;
pub mod render;
pub mod context_panel;
pub mod islands;
pub mod drunkard;
pub mod upkeep;
