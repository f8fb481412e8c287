//! Verified core of a Hypixel Bed Wars statistics card renderer: the colour
//! markup language used in card texts, colour shadows, the split of text into
//! font runs, number formatting, stat tables and the render cache.

pub mod color;
pub mod text;
pub mod palette;
pub mod markup;
pub mod runs;
pub mod numfmt;
pub mod bedwars;
pub mod layout;
pub mod render_service;
