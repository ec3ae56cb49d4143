//! The verified core of a small platform game: an entity store, an event
//! queue with timed events, tile maps, and the game's rules.
pub mod entity;
pub mod schedule;
pub mod events;
pub mod audio;
pub mod map;
pub mod sign;
pub mod controller;
pub mod hero;
pub mod components;
mod strings;
pub mod hi_score;
pub mod title;
pub mod game;
pub mod chest;
pub mod scenery;
pub mod flashlamp;
pub mod pickup;
pub mod font;
pub mod world;
pub mod fps_counter;
pub mod text;
