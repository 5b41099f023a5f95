//! Recognition of multi-finger touchpad gestures.
//!
//! Touch events update a [`frame::Frame`]; at each tick a [`manager::Manager`] hands the frame
//! to every candidate [`recognizer::Recognizer`] and reports the gesture that one of them
//! recognized. Recognizers are built from primitives ([`primitive`]), guards ([`filters`]) and
//! combinators ([`recognizer`]); [`compound`] assembles the swipes that [`config`] binds to
//! actions. Positions are integers in micrometres and angles integers in millidegrees
//! ([`geom`]).

pub mod compound;
pub mod config;
pub mod filters;
pub mod frame;
pub mod geom;
pub mod manager;
pub mod primitive;
pub mod recognizer;
