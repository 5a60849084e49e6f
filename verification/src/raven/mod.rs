//! The Raven story engine: the script model (characters, backgrounds and
//! scenes of commands), the engine state that runs a script from its start
//! scene, and the step functions that drive a story on screen.
pub mod background;
pub mod character;
pub mod game;
pub mod scene;
pub mod script;
pub mod story;

pub use background::Background;
pub use character::Character;
pub use game::{get_game_result, run_raven_game_with_story, set_game_ending, GameResult};
pub use scene::{Choice, Scene, SceneCommand};
pub use script::Script;
