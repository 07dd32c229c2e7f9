//! Verified core of a small demo collection.
//!
//! The two components with real contracts are the number-guessing game
//! engine ([`game`], with its input handling in [`text`]) and the demo
//! dispatcher ([`dispatch`]). Around them stand the verified pieces that
//! the demo routines exercise: a mailbox simulation ([`mailbox`]), a game
//! character system ([`character`]), an animal trait hierarchy
//! ([`animals`]), a rectangle fixture ([`rect`]), and a few free-standing
//! helpers ([`basics`]). Console drivers live outside the library and only
//! prompt, read and print.

pub mod animals;
pub mod basics;
pub mod character;
pub mod dispatch;
pub mod game;
pub mod mailbox;
pub mod rect;
pub mod text;
