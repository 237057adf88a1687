//! The simulation core of a two-player action game whose peers each run
//! the whole simulation and exchange nothing but their inputs.
//!
//! Every quantity is an integer, so that two peers that know the same
//! inputs hold the same world to the last bit. A tick is one sixtieth of a
//! second. Velocities are in world units per tick and positions in world
//! units, of which 32768 make the way that one pixel per second covers in
//! one tick.
//!
//! The modules, from the leaves up: `vector` (points, velocities, steering),
//! `input` (masks and the input frame on the wire), `patrol`, `collision`,
//! `world` and `items` (the entities of a level), `systems` (one tick of the
//! world), `log` and `snapshots` (the records of a session), `rollback` (the
//! synchronizer), `session` and `net` (matchmaking).

pub mod vector;
pub mod input;
pub mod patrol;
pub mod collision;
pub mod world;
pub mod items;
pub mod systems;
pub mod log;
pub mod snapshots;
pub mod session;
pub mod rollback;
pub mod net;
