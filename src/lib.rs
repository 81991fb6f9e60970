//! Text for a terminal animation: a wall of random "prefix: postfix" lines,
//! and a renderer that pads each line so that it overwrites the last frame.

pub mod lines;
pub mod random;
pub mod terminal;
pub mod text;

pub use lines::{is_white_char, lines, trimmed_width};
pub use random::{
    random_char, random_string, random_strings, MAX_CODE, MAX_LEN, MIN_CODE, MIN_LEN,
};
pub use terminal::Terminal;
pub use text::{StaticPrefixText, RESET_PERIOD};
