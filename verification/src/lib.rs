//! Game logic of a small physics arena: the replay log of the main
//! character's inputs, the simulation tick clock, the keyboard and UI
//! decisions, and the layout of the arena and its balls.

pub mod clock;
pub mod replay;
pub mod input;
pub mod ui;
pub mod arena;
