//! A small in-memory operating-system shell: a character-grid display
//! surface, a cellular automaton that draws on it, and a command shell over a
//! fixed-capacity tree of directories and files.

pub mod error;
pub mod game_of_life;
pub mod keyboard;
pub mod names;
pub mod shell;
pub mod shell_laws;
pub mod shell_spec;
pub mod tree;
pub mod tree_depth;
pub mod tree_laws;
pub mod tree_proof;
pub mod tree_spec;
pub mod vga_buf;
