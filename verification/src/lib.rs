//! Simulation core of a side-scrolling platformer.
//!
//! The player is a creature with two body shapes, a capsule that walks and a
//! ball that rolls, living in a rigid-body physics world. Levels are streamed
//! in and out around the camera. Everything here is stepped once per frame.
//!
//! All quantities are fixed-point integers counting millionths of a unit:
//! micrometres, microseconds, microradians. The surrounding program converts
//! to and from the floating-point values of the physics engine.

pub mod assets;
pub mod checkpoint;
pub mod entity;
pub mod fixed;
pub mod floor;
pub mod frame;
pub mod game;
pub mod geometry;
pub mod lazy;
pub mod level;
pub mod life_state;
pub mod light;
pub mod loading;
pub mod movement;
pub mod physics_world;
pub mod player;
pub mod polygon;
pub mod respawn;
pub mod settings;
pub mod streaming;
pub mod svg;
pub mod thing;
pub mod update;
pub mod world;
