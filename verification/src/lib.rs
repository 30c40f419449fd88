//! Gerber reading for a PCB laser-engraving tool chain.
//!
//! The library turns the lines of a Gerber file into a machine state: the
//! apertures that the file defines, and the traces (D01 strokes) and pads
//! (D03 flashes) that it draws. Numbers are kept exactly, without floating
//! point: a coordinate as the digits of its word with the coordinate format and
//! the unit in effect when it was read, an aperture size as the text of its
//! float literal (trimmed and upper-cased, as the definition is read).

pub mod text;
pub mod laws;
pub mod numbers;
pub mod parser;
pub mod rules;
pub mod state;
pub mod types;
