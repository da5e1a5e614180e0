//! A grid-maze ray-casting engine on fixed-point arithmetic: the ray caster,
//! the wall, sprite and minimap projectors, and the pixel surface they draw on.

pub mod fixed;
pub mod framebuffer;
pub mod game;
pub mod grid;
pub mod input;
pub mod minimap;
pub mod player;
pub mod ray;
pub mod render;
pub mod sprite;
pub mod texture;
pub mod wall;
