//! A single-selection picker over a list of textual items: fuzzy filtering,
//! highlight runs for the matched characters, and the state machine that keeps
//! a list cursor and a chosen value consistent.

pub mod controllers;
pub mod highlight;
pub mod item;
pub mod matcher;
pub mod projection;
pub mod selection;
