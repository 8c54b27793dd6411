//! Recolouring of terminal ASCII art with pride-flag colour profiles.
//!
//! Templates carry placeholder tokens (`${c1}` .. `${c6}`); the library
//! normalises them into a rectangular grid and spreads a colour profile
//! across rows, columns or explicit slots, producing ANSI-coloured text.

pub mod text;
pub mod types;
pub mod color;
pub mod profile;
pub mod scanner;
pub mod ascii;
pub mod align;
pub mod presets;
pub mod backend;
pub mod markup;
