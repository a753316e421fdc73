//! The simulation core of a tile-based platformer, verified with Verus.
//!
//! A character runs and jumps through rooms of 15 by 15 tiles and passes
//! from room to room through portals. The library holds everything that
//! decides how the game behaves; windows, graphics contexts and audio
//! devices are left to the program around it.
//!
//! Lengths, speeds and times are fixed-point integers: [`units::UNIT`] raw
//! units make one tile, one second or one pixel, so every step of the
//! simulation is exact and repeatable, and the contracts can say what it
//! computes.
//!
//! * [`tilemap`] and [`layout`]: the grid of a room, its border rule and
//!   range query, and the text format of rooms.
//! * [`controller`], [`solver`], [`transition`]: one tick of the
//!   character: integration, collision resolution, and the hand-over
//!   between rooms. [`landing`] proves what the solver does in every pass
//!   and on a floor.
//! * [`game`] and [`scheduler`]: the state of the game, its tick, and the
//!   fixed-step loop that drives it.
//! * [`scene`] and [`graphics`]: what a frame shows, the quads of a room,
//!   the pictures of rooms, images and sprites on the [`texture_atlas`].
//! * [`mixer`] and [`jukebox`]: the sounds that play and how they add up,
//!   and the sounds of the game at the mixer. [`mixing`] proves that the
//!   order in which they are added makes no difference. [`vorbis`] tests
//!   the bytes of a sound before the decoder gets them.
//! * [`input`] and [`gl`]: keys, buttons and events, and the descriptors
//!   of uniforms, textures and vertices.

pub mod units;
pub mod geometry;
pub mod tilemap;
pub mod layout;
pub mod character;
pub mod controller;
pub mod solver;
pub mod landing;
pub mod transition;
pub mod input;
pub mod game;
pub mod scheduler;
pub mod scene;
pub mod texture_atlas;
pub mod graphics;
pub mod vorbis;
pub mod mixer;
pub mod jukebox;
pub mod mixing;
pub mod gl;
