//! Keyboard layouts as fixed grids of characters: two shift layers that are
//! permuted together, random swaps restricted to eligible keys, reverse
//! lookup from character to key position, and the finger, hand and row that
//! strike each key.

pub mod geometry;
pub mod layout;
pub mod presets;
