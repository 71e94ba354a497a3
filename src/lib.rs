//! A text-mode console: colours, display cells and a writer that wraps and
//! scrolls a fixed grid of cells.
pub mod vga;
