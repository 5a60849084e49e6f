use vstd::prelude::*;

pub mod config;
pub mod game;
pub mod menu;
pub mod raven;
pub mod strmap;
pub mod style;
pub mod text;
pub mod toolbar;
pub mod typewriter;
pub mod url;

pub use crate::GameScene as AppState;

verus! {

/// The screens the application moves between.
#[derive(Debug, Clone, Copy, PartialEq, Eq, Structural)]
pub enum GameScene {
    Menu,
    Game,
    Settings,
    About,
    Help,
    Load,
    LoadButton,
    GameSettings,
}

} // verus!
