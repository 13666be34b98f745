//! Driver for LED panels built from shift registers behind a latch, and the
//! byte protocol that loads rows into them and controls them.

pub mod command;
pub mod matrix;
pub mod transport;
