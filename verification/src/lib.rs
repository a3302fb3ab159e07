use vstd::prelude::*;

pub mod dota;
pub mod game;
pub mod json;
pub mod profile;
pub mod server;
pub mod text;
