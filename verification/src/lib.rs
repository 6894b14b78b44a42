//! The discrete logic of a small planet-of-particles simulation: the kinds of
//! matter, the order in which a planet's particles are updated and collided,
//! the layout of the particle buffer handed to the renderer, the selection of
//! visible particles, and the decisions of the frame loop.
pub mod matter;
pub mod schedule;
pub mod layout;
pub mod select;
pub mod controls;
