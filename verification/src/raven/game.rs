//! The engine state that a story runs in, and running a story from its
//! start scene.
use vstd::prelude::*;
use crate::raven::scene::{Choice, SceneCommand};
use crate::raven::script::Script;
use crate::text::str_eq;
use vstd::std_specs::cmp::PartialEqSpecImpl;

verus! {

/// How a game stands.
#[derive(Debug, Clone)]
pub enum GameResult {
    Playing,
    Ending(String),
    Quit,
    Error(String),
}

impl PartialEq for GameResult {
    fn eq(&self, other: &Self) -> (r: bool) {
        match (self, other) {
            (GameResult::Playing, GameResult::Playing) => true,
            (GameResult::Ending(a), GameResult::Ending(b)) => str_eq(a.as_str(), b.as_str()),
            (GameResult::Quit, GameResult::Quit) => true,
            (GameResult::Error(a), GameResult::Error(b)) => str_eq(a.as_str(), b.as_str()),
            _ => false,
        }
    }
}

impl PartialEqSpecImpl for GameResult {
    open spec fn obeys_eq_spec() -> bool {
        true
    }

    open spec fn eq_spec(&self, other: &GameResult) -> bool {
        match (*self, *other) {
            (GameResult::Playing, GameResult::Playing) => true,
            (GameResult::Ending(a), GameResult::Ending(b)) => a@ == b@,
            (GameResult::Quit, GameResult::Quit) => true,
            (GameResult::Error(a), GameResult::Error(b)) => a@ == b@,
            _ => false,
        }
    }
}

/// The engine state: the loaded script, the scene being played and how the
/// game stands.
#[derive(Debug)]
pub struct GameState {
    pub script: Option<Script>,
    pub current_scene: Option<String>,
    pub result: GameResult,
}

impl GameState {
    /// A state without a script, playing.
    pub fn new() -> (s: Self)
        ensures
            s.script is None,
            s.current_scene is None,
            s.result is Playing,
    {
        Self { script: None, current_scene: None, result: GameResult::Playing }
    }
}

/// What running one command shows.
#[derive(Debug)]
pub enum CommandReport {
    PlayMusic { file: String },
    ShowBackground { background: String, image: String },
    ShowCharacter { name: String, emotion: Option<String>, sprite: String },
    HideCharacter { character: String },
    Dialogue { speaker: String, text: String },
    PlayerThinks { text: String },
    PlayerSays { text: String },
    ShowChoices { choices: Vec<(String, String)> },
    Jump { scene: String },
    EndWith { ending: String },
    ExitGame { previous: GameResult, quit: bool },
    /// A background or character that the script does not hold.
    Skipped,
}

/// Counts of what a loaded script holds.
#[derive(Debug, Clone, Copy)]
pub struct ScriptSummary {
    pub characters: usize,
    pub scenes: usize,
    pub backgrounds: usize,
}

/// What running a story shows: the counts of the loaded script, the start
/// scene that was run, and the report of each of its commands.
#[derive(Debug)]
pub struct RunReport {
    pub loaded: Option<ScriptSummary>,
    pub start: Option<String>,
    pub commands: Vec<CommandReport>,
}

/// `r` is what running `cmd` against `script` shows, for every command but
/// the two that end the game.
pub open spec fn describes(cmd: SceneCommand, script: Script, r: CommandReport) -> bool {
    match cmd {
        SceneCommand::PlayMusic { file } => r == CommandReport::PlayMusic { file },
        SceneCommand::ShowBackground { background } => if script.backgrounds@.contains_key(
            background@,
        ) {
            r == CommandReport::ShowBackground {
                background,
                image: script.backgrounds@[background@].image,
            }
        } else {
            r is Skipped
        },
        SceneCommand::ShowCharacter { character, emotion } => if script.characters@.contains_key(
            character@,
        ) {
            r == CommandReport::ShowCharacter {
                name: script.characters@[character@].name,
                emotion,
                sprite: script.characters@[character@].sprite,
            }
        } else {
            r is Skipped
        },
        SceneCommand::HideCharacter { character } => r == CommandReport::HideCharacter {
            character,
        },
        SceneCommand::Dialogue { speaker, text } => r == CommandReport::Dialogue {
            speaker: if script.characters@.contains_key(speaker@) {
                script.characters@[speaker@].name
            } else {
                speaker
            },
            text,
        },
        SceneCommand::PlayerThinks { text } => r == CommandReport::PlayerThinks { text },
        SceneCommand::PlayerSays { text } => r == CommandReport::PlayerSays { text },
        SceneCommand::ShowChoices { choices } => match r {
            CommandReport::ShowChoices { choices: out } => {
                &&& out@.len() == choices@.len()
                &&& forall|i: int|
                    0 <= i < out@.len() ==> (#[trigger] out@[i]).0 == choices@[i].text
                        && out@[i].1 == choices@[i].scene
            },
            _ => false,
        },
        SceneCommand::Jump { scene } => r == CommandReport::Jump { scene },
        SceneCommand::EndWith { ending } => r == CommandReport::EndWith { ending },
        SceneCommand::ExitGame => r is ExitGame,
    }
}

/// How the game stands after quitting from `r`: a game still playing is
/// quit; any other result stays.
pub open spec fn after_end(r: GameResult) -> GameResult {
    if r is Playing {
        GameResult::Quit
    } else {
        r
    }
}

/// The state after ending the game with `ending`.
pub open spec fn with_ending(s: GameState, ending: String) -> GameState {
    GameState { script: s.script, current_scene: s.current_scene, result: GameResult::Ending(ending) }
}

/// `cmd` ends the game: it sets an ending or quits.
pub open spec fn ends_game(cmd: SceneCommand) -> bool {
    cmd is EndWith || cmd is ExitGame
}

/// The start scene of `s` is in the script and holds a command that ends
/// the game.
pub open spec fn start_scene_ends(s: Script) -> bool {
    &&& s.start_scene matches Some(id)
    &&& s.scenes@.contains_key(id@)
    &&& exists|i: int|
        0 <= i < s.scenes@[id@].commands@.len() && ends_game(
            #[trigger] s.scenes@[id@].commands@[i],
        )
}

/// Whether the start scene of `script` is in the script and holds a command
/// that ends the game, which running the story cannot get through.
pub fn start_scene_ends_game(script: &Script) -> (r: bool)
    ensures
        r == start_scene_ends(*script),
{
    let id = match &script.start_scene {
        Some(id) => id,
        None => return false,
    };
    let scene = match script.get_scene(id.as_str()) {
        Some(s) => s,
        None => return false,
    };
    let mut i: usize = 0;
    while i < scene.commands.len()
        invariant
            script.start_scene == Some(*id),
            script.scenes@.contains_key(id@),
            *scene == script.scenes@[id@],
            i <= scene.commands@.len(),
            forall|k: int| 0 <= k < i ==> !ends_game(#[trigger] scene.commands@[k]),
        decreases scene.commands@.len() - i,
    {
        match &scene.commands[i] {
            SceneCommand::EndWith { .. } | SceneCommand::ExitGame => {
                assert(ends_game(scene.commands@[i as int]));
                return true;
            },
            _ => {},
        }
        i = i + 1;
    }
    false
}

/// A copy of an optional string.
pub(crate) fn copy_opt(o: &Option<String>) -> (r: Option<String>)
    ensures
        r == *o,
{
    match o {
        Some(s) => Some(s.clone()),
        None => None,
    }
}

/// A copy of a game result.
pub fn copy_result(r: &GameResult) -> (c: GameResult)
    ensures
        c == *r,
{
    match r {
        GameResult::Playing => GameResult::Playing,
        GameResult::Ending(e) => GameResult::Ending(e.clone()),
        GameResult::Quit => GameResult::Quit,
        GameResult::Error(e) => GameResult::Error(e.clone()),
    }
}

/// The texts and target scenes of a list of choices.
fn choice_pairs(choices: &Vec<Choice>) -> (out: Vec<(String, String)>)
    ensures
        out@.len() == choices@.len(),
        forall|i: int|
            0 <= i < out@.len() ==> (#[trigger] out@[i]).0 == choices@[i].text && out@[i].1
                == choices@[i].scene,
{
    let mut out: Vec<(String, String)> = Vec::new();
    let mut i: usize = 0;
    while i < choices.len()
        invariant
            i <= choices@.len(),
            out@.len() == i,
            forall|k: int|
                0 <= k < i ==> (#[trigger] out@[k]).0 == choices@[k].text && out@[k].1
                    == choices@[k].scene,
        decreases choices@.len() - i,
    {
        out.push((choices[i].text.clone(), choices[i].scene.clone()));
        i = i + 1;
    }
    out
}

/// What running `command` against `script` shows, for a command that does
/// not end the game.
pub fn describe_command(command: &SceneCommand, script: &Script) -> (r: CommandReport)
    requires
        !ends_game(*command),
    ensures
        describes(*command, *script, r),
{
    match command {
        SceneCommand::PlayMusic { file } => CommandReport::PlayMusic { file: file.clone() },
        SceneCommand::ShowBackground { background } => match script.get_background(
            background.as_str(),
        ) {
            Some(bg) => CommandReport::ShowBackground {
                background: background.clone(),
                image: bg.image.clone(),
            },
            None => CommandReport::Skipped,
        },
        SceneCommand::ShowCharacter { character, emotion } => match script.get_character(
            character.as_str(),
        ) {
            Some(c) => CommandReport::ShowCharacter {
                name: c.name.clone(),
                emotion: copy_opt(emotion),
                sprite: c.sprite.clone(),
            },
            None => CommandReport::Skipped,
        },
        SceneCommand::HideCharacter { character } => CommandReport::HideCharacter {
            character: character.clone(),
        },
        SceneCommand::Dialogue { speaker, text } => {
            let name = match script.get_character(speaker.as_str()) {
                Some(c) => c.name.clone(),
                None => speaker.clone(),
            };
            CommandReport::Dialogue { speaker: name, text: text.clone() }
        },
        SceneCommand::PlayerThinks { text } => CommandReport::PlayerThinks { text: text.clone() },
        SceneCommand::PlayerSays { text } => CommandReport::PlayerSays { text: text.clone() },
        SceneCommand::ShowChoices { choices } => CommandReport::ShowChoices {
            choices: choice_pairs(choices),
        },
        SceneCommand::Jump { scene } => CommandReport::Jump { scene: scene.clone() },
        SceneCommand::EndWith { .. } => CommandReport::Skipped,
        SceneCommand::ExitGame => CommandReport::Skipped,
    }
}

/// Runs one command against `script`; setting an ending or quitting changes
/// `state` as `set_game_ending` and `end_raven_game` do.
pub fn execute_command(command: &SceneCommand, script: &Script, state: &mut GameState) -> (r:
    CommandReport)
    ensures
        describes(*command, *script, r),
        match *command {
            SceneCommand::EndWith { ending } => final(state).result == GameResult::Ending(ending),
            SceneCommand::ExitGame => {
                &&& r == CommandReport::ExitGame {
                    previous: old(state).result,
                    quit: old(state).result is Playing,
                }
                &&& final(state).result == after_end(old(state).result)
            },
            _ => final(state).result == old(state).result,
        },
        final(state).script == old(state).script,
        final(state).current_scene == old(state).current_scene,
{
    match command {
        SceneCommand::EndWith { ending } => {
            set_game_ending(state, ending.clone());
            CommandReport::EndWith { ending: ending.clone() }
        },
        SceneCommand::ExitGame => {
            let previous = copy_result(&state.result);
            let quit = end_raven_game(state);
            CommandReport::ExitGame { previous, quit }
        },
        _ => describe_command(command, script),
    }
}

/// Loads `script` into `state` and runs its start scene, reporting what
/// each command shows.
///
/// A start scene that sets an ending or quits is left out: running it does
/// not return. `start_scene_ends_game` tells such a script apart.
pub fn run_raven_game_with_story(state: &mut GameState, script: Option<Script>) -> (report:
    RunReport)
    requires
        script matches Some(s) ==> !start_scene_ends(s),
    ensures
        final(state).script == script,
        final(state).current_scene == (match script {
            Some(s) => s.start_scene,
            None => None,
        }),
        final(state).result is Playing,
        report.loaded is Some <==> script is Some,
        script matches Some(s) ==> report.loaded == Some(
            ScriptSummary {
                characters: s.characters@.len() as usize,
                scenes: s.scenes@.len() as usize,
                backgrounds: s.backgrounds@.len() as usize,
            },
        ),
        match script {
            Some(s) => match s.start_scene {
                Some(id) => if s.scenes@.contains_key(id@) {
                    &&& report.start == Some(id)
                    &&& report.commands@.len() == s.scenes@[id@].commands@.len()
                    &&& forall|i: int|
                        0 <= i < report.commands@.len() ==> describes(
                            s.scenes@[id@].commands@[i],
                            s,
                            #[trigger] report.commands@[i],
                        )
                } else {
                    report.start is None && report.commands@.len() == 0
                },
                None => report.start is None && report.commands@.len() == 0,
            },
            None => report.start is None && report.commands@.len() == 0,
        },
{
    state.current_scene = match &script {
        Some(s) => copy_opt(&s.start_scene),
        None => None,
    };
    state.script = script;
    state.result = GameResult::Playing;
    let mut report = RunReport { loaded: None, start: None, commands: Vec::new() };
    match &state.script {
        Some(s) => {
            report.loaded = Some(
                ScriptSummary {
                    characters: s.characters.len(),
                    scenes: s.scenes.len(),
                    backgrounds: s.backgrounds.len(),
                },
            );
            match &s.start_scene {
                Some(id) => match s.get_scene(id.as_str()) {
                    Some(scene) => {
                        report.start = Some(id.clone());
                        let mut commands: Vec<CommandReport> = Vec::new();
                        let mut i: usize = 0;
                        while i < scene.commands.len()
                            invariant
                                s.start_scene == Some(*id),
                                s.scenes@.contains_key(id@),
                                *scene == s.scenes@[id@],
                                forall|k: int|
                                    0 <= k < scene.commands@.len() ==> !ends_game(
                                        #[trigger] scene.commands@[k],
                                    ),
                                i <= scene.commands@.len(),
                                commands@.len() == i,
                                forall|k: int|
                                    0 <= k < i ==> describes(
                                        scene.commands@[k],
                                        *s,
                                        #[trigger] commands@[k],
                                    ),
                            decreases scene.commands@.len() - i,
                        {
                            let r = describe_command(&scene.commands[i], s);
                            commands.push(r);
                            i = i + 1;
                        }
                        report.commands = commands;
                    },
                    None => {},
                },
                None => {},
            }
        },
        None => {},
    }
    report
}

/// How the game stands.
pub fn get_game_result(state: &GameState) -> (r: GameResult)
    ensures
        r == state.result,
{
    copy_result(&state.result)
}

/// Quits the game if it is still playing; a game that has already ended
/// keeps its result. Returns whether the game was quit by this call.
pub fn end_raven_game(state: &mut GameState) -> (quit: bool)
    ensures
        quit == old(state).result is Playing,
        final(state).result == after_end(old(state).result),
        final(state).script == old(state).script,
        final(state).current_scene == old(state).current_scene,
{
    match state.result {
        GameResult::Playing => {
            state.result = GameResult::Quit;
            true
        },
        _ => false,
    }
}

/// Ends the game with `ending`.
pub fn set_game_ending(state: &mut GameState, ending: String)
    ensures
        *final(state) == with_ending(*old(state), ending),
{
    state.result = GameResult::Ending(ending);
}

/// The loaded script, if any.
pub fn get_current_story(state: &GameState) -> (r: Option<&Script>)
    ensures
        match r {
            Some(s) => state.script == Some(*s),
            None => state.script is None,
        },
{
    match &state.script {
        Some(s) => Some(s),
        None => None,
    }
}

/// Characters are shown under their display names: for an id that the
/// script binds to a character, showing it reports that character's name
/// and sprite, with the emotion asked for, and the name is the one a line
/// spoken by that id reports as its speaker; an id the script does not hold
/// is skipped.
pub proof fn law_characters_shown_by_name(
    script: Script,
    id: String,
    emotion: Option<String>,
    text: String,
    shown: CommandReport,
    spoken: CommandReport,
)
    requires
        describes(SceneCommand::ShowCharacter { character: id, emotion }, script, shown),
        describes(SceneCommand::Dialogue { speaker: id, text }, script, spoken),
    ensures
        script.characters@.contains_key(id@) ==> {
            &&& shown matches CommandReport::ShowCharacter { name, emotion: e, sprite }
            &&& name == script.characters@[id@].name
            &&& sprite == script.characters@[id@].sprite
            &&& e == emotion
            &&& spoken matches CommandReport::Dialogue { speaker, text: t }
            &&& speaker == name
            &&& t == text
        },
        !script.characters@.contains_key(id@) ==> {
            &&& shown is Skipped
            &&& spoken == CommandReport::Dialogue { speaker: id, text }
        },
{
}

/// Quitting a game twice changes nothing the second time, and a game that
/// has reached an ending keeps it when it is quit.
pub proof fn law_quit_is_idempotent(r: GameResult, ending: String)
    ensures
        after_end(after_end(r)) == after_end(r),
        after_end(GameResult::Ending(ending)) == GameResult::Ending(ending),
        after_end(GameResult::Playing) == GameResult::Quit,
{
}

/// After setting an ending, reading the game result gives that ending, and
/// quitting afterwards keeps it.
pub proof fn law_ending_is_read_back(s: GameState, ending: String)
    ensures
        with_ending(s, ending).result == GameResult::Ending(ending),
        after_end(with_ending(s, ending).result) == GameResult::Ending(ending),
        with_ending(s, ending).script == s.script,
        with_ending(s, ending).current_scene == s.current_scene,
{
}

} // verus!
