//! The simulation core of a small arcade shooter, verified with Verus.
//!
//! The game is an entity-component world that advances once per frame:
//! ships, rocks, shots, pickups and short-lived effects are entities, and
//! passes over them move them, find their collisions, let them fight, and
//! queue the entities to create and destroy. A director decides which
//! enemies and pickups enter the stage and raises the difficulty round by
//! round.
//!
//! # Numbers
//!
//! Every quantity is an `i64` that counts millionths: seconds, canvas
//! units, degrees and ratios alike (see [`fixed`]). Arithmetic saturates at
//! the ends of the representable band, so no operation can overflow, and
//! the trigonometry is a rational approximation (see [`trig`]).
//!
//! # Randomness, time and input
//!
//! The library owns no clock, no generator and no device. The host hands in
//! the time step, the keys that are down and a stock of random words for
//! each frame (see [`random::Entropy`] and [`scene::FrameInput`]), and gets
//! back what to draw (see [`scene::FrameOutput`] and [`render`]).
//!
//! # Entities
//!
//! Entities live in a `hecs::World`, behind [`store::Store`]. A pass never
//! changes the set of entities while it looks at them: it works on a
//! snapshot and queues structural changes in a
//! [`commands::WorldCommandBuffer`], which is run at the end of the frame.
//!
//! # What is proved
//!
//! Every function states what it returns and changes, and Verus checks the
//! statement against the body. Properties that span several functions are
//! proved as lemmas beside them: collision lists are symmetric and hold
//! nothing stale ([`collision`]), a repeating trigger loses no time and a
//! restarted countdown completes ([`timer`]), a shuffle bag gives out its
//! weights exactly ([`shufflebag`]), resource pools and hit points stay
//! within their bounds ([`player`], [`enemy`], [`frame`]), and a planned
//! round is ordered and spends its budget ([`director`]).
//!
//! The laws of a whole frame stand at the end of [`scene`]. They speak of
//! the store after the frame: what a frame despawns stays gone and what it
//! queues to be created is there; a ship outside the canvas is gone, and
//! leaves a flash and a slow motion; a ship that fires has its shots in
//! the store, and nothing else flies; a pickup heals by its gain and no
//! further than the maximum.
//!
//! Where a function draws random words itself, its contract says which
//! word selects what and how many words it takes. The passes and the
//! frame, which call such functions for one entity after the other, state
//! what holds whichever words were drawn.
//!
//! What `hecs` does is not proved but taken from its source; the six
//! functions that say so are at the top of [`store`].
pub mod fixed;
pub mod trig;
pub mod vec2;
pub mod color;
pub mod easing;
pub mod timer;
pub mod random;
pub mod shufflebag;
pub mod attack;
pub mod skill;
pub mod infotext;
pub mod components;
pub mod archetypes;
pub mod store;
pub mod commands;
pub mod census;
pub mod motion;
pub mod collision;
pub mod enemy;
pub mod player;
pub mod shooting;
pub mod pilot;
pub mod effects;
pub mod pickups;
pub mod labels;
pub mod frame;
pub mod director;
pub mod scene;
pub mod render;
pub mod launcher;
