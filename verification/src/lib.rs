//! Validation and mutation of the CPU frequency-scaling attributes that the
//! operating system shows as text files, one directory for each scaling
//! domain ("policy").
//!
//! The library works on an image of those directories, the
//! [`store::AttributeStore`]: a program fills it with what it finds, lets a
//! command run on it, and then carries out the writes that the command
//! entered in the journal of the store. Everything between the two is here,
//! and is proved to do what its contract says:
//!
//! - [`frequency`]: frequencies tagged with their unit, and the conversions
//!   between units;
//! - [`grammar`]: the language of frequency values, such as `2.5g:4.5g`;
//! - [`target`]: policy selectors, such as `*`, `1:3` and `0,2,5`, and the
//!   policies that they select;
//! - [`policies`]: policy directories, their attribute files, and the checks
//!   that stand before every write;
//! - [`argparse`]: the commands `set` and `get`;
//! - [`error`]: the failures and their messages;
//! - [`store`]: the image of the attribute store;
//! - [`text`]: characters, words and numbers;
//! - [`laws`]: what holds of all of it together.

pub mod argparse;
pub mod error;
pub mod frequency;
pub mod grammar;
pub mod laws;
pub mod policies;
pub mod store;
pub mod target;
pub mod text;
