//! A turn-based resource-collection game: a hero moves across a field and
//! fights stationary monsters for gold and experience within a turn budget.
//!
//! The simulation engine validates and applies moves and attacks; the greedy
//! policy's decisions (which monster to pursue, whether to strike or approach)
//! are made from integer priorities handed to it.
pub mod geom;
pub mod task;
pub mod game;
pub mod greedy;
pub mod laws;
