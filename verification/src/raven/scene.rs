//! Scenes: ordered lists of commands.
use vstd::prelude::*;

verus! {

/// One step of a scene.
#[derive(Debug, Clone)]
pub enum SceneCommand {
    PlayMusic { file: String },
    ShowBackground { background: String },
    ShowCharacter { character: String, emotion: Option<String> },
    HideCharacter { character: String },
    Dialogue { speaker: String, text: String },
    PlayerThinks { text: String },
    PlayerSays { text: String },
    ShowChoices { choices: Vec<Choice> },
    Jump { scene: String },
    EndWith { ending: String },
    ExitGame,
}

/// An option offered to the player: its text and the scene it leads to.
#[derive(Debug, Clone)]
pub struct Choice {
    pub text: String,
    pub scene: String,
}

/// A scene: the commands it runs, in order.
#[derive(Debug, Clone)]
pub struct Scene {
    pub commands: Vec<SceneCommand>,
}

impl Scene {
    /// A scene without commands.
    pub fn new() -> (s: Self)
        ensures
            s.commands@ == Seq::<SceneCommand>::empty(),
    {
        Self { commands: Vec::new() }
    }

    /// Appends `command` to the scene.
    pub fn add_command(&mut self, command: SceneCommand)
        ensures
            final(self).commands@ == old(self).commands@.push(command),
    {
        self.commands.push(command);
    }
}

impl Choice {
    /// A choice showing `text` that leads to `scene`.
    pub fn new(text: String, scene: String) -> (c: Self)
        ensures
            c.text == text,
            c.scene == scene,
    {
        Self { text, scene }
    }
}

} // verus!
