//! An interactive table engine for text terminals: an arena-based table
//! store, a hit-test canvas that maps screen positions back to table
//! elements, a renderer that paints glyph spans and their provenance in
//! lockstep, and a press/release gesture state machine that commits
//! row-local cell swaps.

pub mod canvas;
pub mod gesture;
pub mod render;
pub mod store;
