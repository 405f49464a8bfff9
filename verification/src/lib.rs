//! Board engine of a two-player tile game: players place atoms on a small
//! grid, chain them into compounds through adjacency bonds, and score a
//! compound once every atom in it is saturated.
#![allow(non_snake_case)]

pub mod action_log;
pub mod card_deck;
pub mod command;
pub mod game;
pub mod game_board;
pub mod laws;
mod random;
pub mod screen;
pub mod text;
