//! The menus: which screen a pressed menu button leads to, and when leaving
//! a screen removes the menu camera.
use vstd::prelude::*;
use crate::GameScene;

verus! {

/// The kinds of menu button on the pressed entity; an entity may carry
/// several.
#[derive(Debug)]
pub struct MenuButtons {
    pub start_game: bool,
    pub settings: bool,
    pub exit_game: bool,
    pub about: bool,
    pub back: bool,
    pub help: bool,
    pub load: bool,
    /// The link of a link button.
    pub url: Option<String>,
}

/// What pressing a menu button does.
#[derive(Debug)]
pub enum MenuAction {
    GoTo { scene: GameScene },
    Exit,
    OpenUrl { url: String },
    Nothing,
}

/// What pressing a menu button does: the first kind it carries, in the
/// order start, settings, about, back, help, load, exit, link, decides.
pub fn pressed_action(b: &MenuButtons) -> (a: MenuAction)
    ensures
        a == (if b.start_game {
            MenuAction::GoTo { scene: GameScene::Game }
        } else if b.settings {
            MenuAction::GoTo { scene: GameScene::Settings }
        } else if b.about {
            MenuAction::GoTo { scene: GameScene::About }
        } else if b.back {
            MenuAction::GoTo { scene: GameScene::Menu }
        } else if b.help {
            MenuAction::GoTo { scene: GameScene::Help }
        } else if b.load {
            MenuAction::GoTo { scene: GameScene::LoadButton }
        } else if b.exit_game {
            MenuAction::Exit
        } else {
            match b.url {
                Some(u) => MenuAction::OpenUrl { url: u },
                None => MenuAction::Nothing,
            }
        }),
{
    if b.start_game {
        MenuAction::GoTo { scene: GameScene::Game }
    } else if b.settings {
        MenuAction::GoTo { scene: GameScene::Settings }
    } else if b.about {
        MenuAction::GoTo { scene: GameScene::About }
    } else if b.back {
        MenuAction::GoTo { scene: GameScene::Menu }
    } else if b.help {
        MenuAction::GoTo { scene: GameScene::Help }
    } else if b.load {
        MenuAction::GoTo { scene: GameScene::LoadButton }
    } else if b.exit_game {
        MenuAction::Exit
    } else {
        match &b.url {
            Some(u) => MenuAction::OpenUrl { url: u.clone() },
            None => MenuAction::Nothing,
        }
    }
}

/// Cleaning up a menu screen removes the menu camera only when the game
/// screen is being entered.
pub fn cleanup_clears_camera(current: GameScene) -> (r: bool)
    ensures
        r == (current == GameScene::Game),
{
    current == GameScene::Game
}

/// Entering the game removes the menu camera unless the in-game settings
/// screen is current.
pub fn game_entry_clears_camera(current: GameScene) -> (r: bool)
    ensures
        r == (current != GameScene::GameSettings),
{
    current != GameScene::GameSettings
}

} // verus!
