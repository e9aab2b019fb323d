//! Unique random names for a set of files: the alphabets, the naming-space
//! arithmetic, the two generation strategies and the rules of the rename run.

pub mod char_set;
pub mod cli;
pub mod compute;
pub mod io_helper;
pub mod naming;
pub mod text;
pub mod util;
