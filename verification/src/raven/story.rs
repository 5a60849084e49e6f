//! Playing a story on screen: the story being played, how it advances
//! through the commands of its current scene frame by frame, what the
//! dialogue box shows, which images are still to be loaded, and the
//! typewriter that reveals a line.
use vstd::prelude::*;
use crate::raven::game::copy_opt;
use crate::raven::scene::SceneCommand;
use crate::raven::script::Script;
use crate::text::{chars_of, first_chars, owned, str_eq, take_chars};

verus! {

/// A story being played: where it stands and what it waits for.
#[derive(Debug)]
pub struct RavenStory {
    pub story: Script,
    pub current_scene: Option<String>,
    pub scene_index: usize,
    pub waiting_for_input: bool,
    pub waiting_for_asset_load: bool,
    pub waiting_for_typewriter: bool,
}

/// What the screen has to do for one command.
#[derive(Debug)]
pub enum StoryAction {
    /// Remove every background sprite.
    ClearBackgrounds,
    SpawnBackground { background: String, image: String },
    SpawnCharacter { character: String, name: String, sprite: String, emotion: Option<String> },
    /// Remove the first sprite of this character.
    DespawnCharacter { character: String },
    PlayMusic { file: String },
    Dialogue { speaker: String, text: String },
    PlayerThinks { text: String },
    PlayerSays { text: String },
    ShowChoices,
    Jump { scene: String },
    EndWith { ending: String },
    /// Close the application.
    Exit,
}

/// A command after which the story waits for the player.
pub open spec fn pauses(cmd: SceneCommand) -> bool {
    ||| cmd is Dialogue
    ||| cmd is PlayerThinks
    ||| cmd is PlayerSays
    ||| cmd is ShowChoices
    ||| cmd is EndWith
}

/// The ids of the characters on screen, by their characters.
pub open spec fn id_views(ids: Seq<String>) -> Seq<Seq<char>> {
    ids.map_values(|s: String| s@)
}

/// What the screen has to do for `cmd`, given the characters already on
/// screen when the frame began.
pub open spec fn command_actions(cmd: SceneCommand, story: Script, shown: Seq<Seq<char>>) -> Seq<
    StoryAction,
> {
    match cmd {
        SceneCommand::ShowBackground { background } => if story.backgrounds@.contains_key(
            background@,
        ) {
            seq![
                StoryAction::ClearBackgrounds,
                StoryAction::SpawnBackground {
                    background,
                    image: story.backgrounds@[background@].image,
                },
            ]
        } else {
            seq![StoryAction::ClearBackgrounds]
        },
        SceneCommand::ShowCharacter { character, emotion } => if !shown.contains(character@)
            && story.characters@.contains_key(character@) {
            seq![
                StoryAction::SpawnCharacter {
                    character,
                    name: story.characters@[character@].name,
                    sprite: story.characters@[character@].sprite,
                    emotion,
                },
            ]
        } else {
            seq![]
        },
        SceneCommand::PlayMusic { file } => seq![StoryAction::PlayMusic { file }],
        SceneCommand::HideCharacter { character } => if shown.contains(character@) {
            seq![StoryAction::DespawnCharacter { character }]
        } else {
            seq![]
        },
        SceneCommand::Dialogue { speaker, text } => seq![StoryAction::Dialogue { speaker, text }],
        SceneCommand::PlayerThinks { text } => seq![StoryAction::PlayerThinks { text }],
        SceneCommand::PlayerSays { text } => seq![StoryAction::PlayerSays { text }],
        SceneCommand::ShowChoices { .. } => seq![StoryAction::ShowChoices],
        SceneCommand::Jump { scene } => seq![StoryAction::Jump { scene }],
        SceneCommand::EndWith { ending } => seq![StoryAction::EndWith { ending }],
        SceneCommand::ExitGame => seq![StoryAction::Exit],
    }
}

/// Where a frame leaves the story: the command index, the current scene,
/// whether it waits for the player, and what the screen has to do.
pub struct Progress {
    pub index: int,
    pub scene: Option<String>,
    pub waiting: bool,
    pub actions: Seq<StoryAction>,
}

/// Runs the commands `cmds` of the scene that was current when the frame
/// began, from `index`, until one waits for the player or the list ends.
/// A jump makes its target the current scene and sets the index to 0, after
/// which the index still moves on by one and the same list is run on;
/// `fuel` bounds the number of commands run.
pub open spec fn progress_run(
    cmds: Seq<SceneCommand>,
    index: int,
    scene: Option<String>,
    story: Script,
    shown: Seq<Seq<char>>,
    fuel: nat,
) -> Progress
    decreases fuel,
{
    if fuel == 0 || index < 0 || index >= cmds.len() {
        Progress { index, scene, waiting: false, actions: seq![] }
    } else {
        let cmd = cmds[index];
        let acts = command_actions(cmd, story, shown);
        let (index1, scene1) = match cmd {
            SceneCommand::Jump { scene: target } => (0int, Some(target)),
            _ => (index, scene),
        };
        if pauses(cmd) {
            Progress { index: index1 + 1, scene: scene1, waiting: true, actions: acts }
        } else {
            let rest = progress_run(cmds, index1 + 1, scene1, story, shown, (fuel - 1) as nat);
            Progress {
                index: rest.index,
                scene: rest.scene,
                waiting: rest.waiting,
                actions: acts + rest.actions,
            }
        }
    }
}

/// A command that stops the run of a frame: one that waits, or a jump.
pub open spec fn stops(cmd: SceneCommand) -> bool {
    pauses(cmd) || cmd is Jump
}

/// Running from `i`, a jump is met before any command that waits.
pub open spec fn jump_reachable(cmds: Seq<SceneCommand>, i: int) -> bool {
    exists|k: int|
        #![trigger cmds[k]]
        i <= k < cmds.len() && cmds[k] is Jump && forall|j: int|
            i <= j < k ==> !stops(#[trigger] cmds[j])
}

/// A frame that starts at `i` ends: after a jump the list is run on from
/// position 1, and a second jump met that way sends it back to position 1
/// for ever.
pub open spec fn progress_terminates(cmds: Seq<SceneCommand>, i: int) -> bool {
    jump_reachable(cmds, i) ==> !jump_reachable(cmds, 1)
}

proof fn lemma_reach_step(cmds: Seq<SceneCommand>, i: int)
    requires
        0 <= i < cmds.len(),
        !stops(cmds[i]),
    ensures
        jump_reachable(cmds, i + 1) ==> jump_reachable(cmds, i),
{
    if jump_reachable(cmds, i + 1) {
        let k = choose|k: int|
            #![trigger cmds[k]]
            i + 1 <= k < cmds.len() && cmds[k] is Jump && forall|j: int|
                i + 1 <= j < k ==> !stops(#[trigger] cmds[j]);
        assert forall|j: int| i <= j < k implies !stops(#[trigger] cmds[j]) by {}
    }
}

/// What the frame does to a story that is not waiting and whose current
/// scene is `cmds`.
pub open spec fn frame_progress(s: RavenStory, cmds: Seq<SceneCommand>, shown: Seq<Seq<char>>) -> Progress {
    progress_run(cmds, s.scene_index as int, s.current_scene, s.story, shown, (2 * cmds.len() + 2) as nat)
}

/// The frame runs commands: the story waits for nothing and its current
/// scene is in the script.
pub open spec fn frame_runs(s: RavenStory) -> bool {
    &&& !s.waiting_for_input
    &&& !s.waiting_for_asset_load
    &&& s.current_scene is Some
    &&& s.story.scenes@.contains_key(s.current_scene->0@)
}

/// Whether `ids` holds `id`.
fn holds_id(ids: &Vec<String>, id: &String) -> (r: bool)
    ensures
        r == id_views(ids@).contains(id@),
{
    let mut i: usize = 0;
    while i < ids.len()
        invariant
            i <= ids@.len(),
            forall|k: int| 0 <= k < i ==> ids@[k]@ != id@,
        decreases ids@.len() - i,
    {
        if str_eq(ids[i].as_str(), id.as_str()) {
            assert(id_views(ids@)[i as int] == id@);
            return true;
        }
        i = i + 1;
    }
    assert(!id_views(ids@).contains(id@)) by {
        if id_views(ids@).contains(id@) {
            let k = choose|k: int| 0 <= k < id_views(ids@).len() && id_views(ids@)[k] == id@;
            assert(ids@[k]@ == id@);
        }
    }
    false
}

/// Runs one command: appends what the screen has to do to `actions`, moves
/// to the target of a jump, and returns whether the story now waits for the
/// player.
fn execute_simple_command(
    command: &SceneCommand,
    story: &Script,
    shown: &Vec<String>,
    current_scene: &mut Option<String>,
    scene_index: &mut usize,
    actions: &mut Vec<StoryAction>,
) -> (pause: bool)
    ensures
        pause == pauses(*command),
        final(actions)@ == old(actions)@ + command_actions(*command, *story, id_views(shown@)),
        match *command {
            SceneCommand::Jump { scene } => {
                &&& *final(current_scene) == Some(scene)
                &&& *final(scene_index) == 0
            },
            _ => {
                &&& *final(current_scene) == *old(current_scene)
                &&& *final(scene_index) == *old(scene_index)
            },
        },
{
    let ghost before = actions@;
    match command {
        SceneCommand::ShowBackground { background } => {
            actions.push(StoryAction::ClearBackgrounds);
            match story.get_background(background.as_str()) {
                Some(bg) => {
                    actions.push(
                        StoryAction::SpawnBackground {
                            background: background.clone(),
                            image: bg.image.clone(),
                        },
                    );
                },
                None => {},
            }
            assert(actions@ =~= before + command_actions(*command, *story, id_views(shown@)));
            false
        },
        SceneCommand::ShowCharacter { character, emotion } => {
            if !holds_id(shown, character) {
                match story.get_character(character.as_str()) {
                    Some(c) => {
                        actions.push(
                            StoryAction::SpawnCharacter {
                                character: character.clone(),
                                name: c.name.clone(),
                                sprite: c.sprite.clone(),
                                emotion: copy_opt(emotion),
                            },
                        );
                    },
                    None => {},
                }
            }
            assert(actions@ =~= before + command_actions(*command, *story, id_views(shown@)));
            false
        },
        SceneCommand::PlayMusic { file } => {
            actions.push(StoryAction::PlayMusic { file: file.clone() });
            assert(actions@ =~= before + command_actions(*command, *story, id_views(shown@)));
            false
        },
        SceneCommand::HideCharacter { character } => {
            if holds_id(shown, character) {
                actions.push(StoryAction::DespawnCharacter { character: character.clone() });
            }
            assert(actions@ =~= before + command_actions(*command, *story, id_views(shown@)));
            false
        },
        SceneCommand::Dialogue { speaker, text } => {
            actions.push(StoryAction::Dialogue { speaker: speaker.clone(), text: text.clone() });
            assert(actions@ =~= before + command_actions(*command, *story, id_views(shown@)));
            true
        },
        SceneCommand::PlayerThinks { text } => {
            actions.push(StoryAction::PlayerThinks { text: text.clone() });
            assert(actions@ =~= before + command_actions(*command, *story, id_views(shown@)));
            true
        },
        SceneCommand::PlayerSays { text } => {
            actions.push(StoryAction::PlayerSays { text: text.clone() });
            assert(actions@ =~= before + command_actions(*command, *story, id_views(shown@)));
            true
        },
        SceneCommand::ShowChoices { .. } => {
            actions.push(StoryAction::ShowChoices);
            assert(actions@ =~= before + command_actions(*command, *story, id_views(shown@)));
            true
        },
        SceneCommand::Jump { scene } => {
            *current_scene = Some(scene.clone());
            *scene_index = 0;
            actions.push(StoryAction::Jump { scene: scene.clone() });
            assert(actions@ =~= before + command_actions(*command, *story, id_views(shown@)));
            false
        },
        SceneCommand::EndWith { ending } => {
            actions.push(StoryAction::EndWith { ending: ending.clone() });
            assert(actions@ =~= before + command_actions(*command, *story, id_views(shown@)));
            true
        },
        SceneCommand::ExitGame => {
            actions.push(StoryAction::Exit);
            assert(actions@ =~= before + command_actions(*command, *story, id_views(shown@)));
            false
        },
    }
}

impl RavenStory {
    /// A story at the start of its start scene, waiting for its images.
    pub fn new(story: Script) -> (s: Self)
        ensures
            s.current_scene == story.start_scene,
            s.story == story,
            s.scene_index == 0,
            !s.waiting_for_input,
            s.waiting_for_asset_load,
            s.waiting_for_typewriter,
    {
        let current_scene = copy_opt(&story.start_scene);
        RavenStory {
            story,
            current_scene,
            scene_index: 0,
            waiting_for_input: false,
            waiting_for_asset_load: true,
            waiting_for_typewriter: true,
        }
    }

    /// A press of space or the left mouse button ends the wait for the
    /// player.
    pub fn handle_input(&mut self, pressed: bool)
        ensures
            final(self).waiting_for_input == (old(self).waiting_for_input && !pressed),
            final(self).story == old(self).story,
            final(self).current_scene == old(self).current_scene,
            final(self).scene_index == old(self).scene_index,
            final(self).waiting_for_asset_load == old(self).waiting_for_asset_load,
            final(self).waiting_for_typewriter == old(self).waiting_for_typewriter,
    {
        if self.waiting_for_input {
            if pressed {
                self.waiting_for_input = false;
            }
        }
    }

    /// Once every image is loaded the story stops waiting for them.
    pub fn check_asset_loading(&mut self, all_loaded: bool)
        ensures
            final(self).waiting_for_asset_load == (old(self).waiting_for_asset_load && !all_loaded),
            final(self).story == old(self).story,
            final(self).current_scene == old(self).current_scene,
            final(self).scene_index == old(self).scene_index,
            final(self).waiting_for_input == old(self).waiting_for_input,
            final(self).waiting_for_typewriter == old(self).waiting_for_typewriter,
    {
        if all_loaded && self.waiting_for_asset_load {
            self.waiting_for_asset_load = false;
        }
    }

    /// One frame of the story: runs the commands of the current scene until
    /// one waits for the player or the scene's list ends, and returns what
    /// the screen has to do. `shown` holds the ids of the characters on
    /// screen when the frame began.
    pub fn handle_scene_progress(&mut self, shown: &Vec<String>) -> (actions: Vec<StoryAction>)
        requires
            frame_runs(*old(self)) ==> progress_terminates(
                old(self).story.scenes@[old(self).current_scene->0@].commands@,
                old(self).scene_index as int,
            ),
        ensures
            final(self).story == old(self).story,
            final(self).waiting_for_asset_load == old(self).waiting_for_asset_load,
            final(self).waiting_for_typewriter == old(self).waiting_for_typewriter,
            !frame_runs(*old(self)) ==> {
                &&& final(self).current_scene == old(self).current_scene
                &&& final(self).scene_index == old(self).scene_index
                &&& final(self).waiting_for_input == old(self).waiting_for_input
                &&& actions@.len() == 0
            },
            frame_runs(*old(self)) ==> {
                let p = frame_progress(
                    *old(self),
                    old(self).story.scenes@[old(self).current_scene->0@].commands@,
                    id_views(shown@),
                );
                &&& final(self).scene_index as int == p.index
                &&& final(self).current_scene == p.scene
                &&& final(self).waiting_for_input == p.waiting
                &&& actions@ == p.actions
            },
    {
        let mut actions: Vec<StoryAction> = Vec::new();
        if self.waiting_for_input || self.waiting_for_asset_load {
            return actions;
        }
        let id = match &self.current_scene {
            Some(id) => id.clone(),
            None => return actions,
        };
        let scene = match self.story.get_scene(id.as_str()) {
            Some(s) => s,
            None => return actions,
        };
        let n = scene.commands.len();
        let ghost cmds = scene.commands@;
        let ghost shown_v = id_views(shown@);
        let ghost total = (2 * n + 2) as nat;
        let ghost whole = progress_run(
            cmds,
            self.scene_index as int,
            self.current_scene,
            self.story,
            shown_v,
            total,
        );
        let ghost mut fuel: nat = total;
        let ghost mut jumped = false;
        while self.scene_index < n && !self.waiting_for_input
            invariant
                frame_runs(*old(self)),
                cmds == old(self).story.scenes@[old(self).current_scene->0@].commands@,
                shown_v == id_views(shown@),
                whole == frame_progress(*old(self), cmds, shown_v),
                n == cmds.len(),
                cmds == scene.commands@,
                self.story == old(self).story,
                self.waiting_for_asset_load == old(self).waiting_for_asset_load,
                self.waiting_for_typewriter == old(self).waiting_for_typewriter,
                !self.waiting_for_input,
                !jumped ==> progress_terminates(cmds, self.scene_index as int),
                jumped ==> !jump_reachable(cmds, self.scene_index as int),
                !jumped ==> fuel + self.scene_index >= 2 * n + 1,
                jumped ==> fuel + self.scene_index >= n + 1,
                ({
                    let rest = progress_run(
                        cmds,
                        self.scene_index as int,
                        self.current_scene,
                        self.story,
                        shown_v,
                        fuel,
                    );
                    &&& whole.index == rest.index
                    &&& whole.scene == rest.scene
                    &&& whole.waiting == rest.waiting
                    &&& whole.actions == actions@ + rest.actions
                }),
            decreases fuel,
        {
            let i = self.scene_index;
            let ghost acts_before = actions@;
            let ghost scene_before = self.current_scene;
            let ghost rest_before = progress_run(cmds, i as int, scene_before, self.story, shown_v, fuel);
            let pause = execute_simple_command(
                &scene.commands[i],
                &self.story,
                shown,
                &mut self.current_scene,
                &mut self.scene_index,
                &mut actions,
            );
            let ghost was_jump = cmds[i as int] is Jump;
            proof {
                if !was_jump && !pause {
                    lemma_reach_step(cmds, i as int);
                }
            }
            self.scene_index = self.scene_index + 1;
            if pause {
                self.waiting_for_input = true;
                proof {
                    assert(whole.actions == actions@);
                }
                return actions;
            }
            proof {
                let rest_after = progress_run(
                    cmds,
                    self.scene_index as int,
                    self.current_scene,
                    self.story,
                    shown_v,
                    (fuel - 1) as nat,
                );
                assert(rest_before.actions == command_actions(cmds[i as int], self.story, shown_v)
                    + rest_after.actions);
                assert(whole.actions =~= actions@ + rest_after.actions);
                if was_jump {
                    assert(jump_reachable(cmds, i as int)) by {
                        assert(cmds[i as int] is Jump);
                    }
                    jumped = true;
                }
                fuel = (fuel - 1) as nat;
            }
        }
        actions
    }

    /// The speaker name and the text that the dialogue box shows for the
    /// command just run, if the current scene has run at least one command
    /// and not gone past its end.
    pub fn update_dialogue_display(&self) -> (r: Option<(String, String)>)
        ensures
            r is Some <==> (self.current_scene is Some && self.story.scenes@.contains_key(
                self.current_scene->0@,
            ) && 0 < self.scene_index <= self.story.scenes@[self.current_scene->0@].commands@.len()),
            r matches Some((name, text)) ==> {
                let cmd = self.story.scenes@[self.current_scene->0@].commands@[self.scene_index - 1];
                match cmd {
                    SceneCommand::Dialogue { speaker, text: t } => {
                        &&& name@ == (if self.story.characters@.contains_key(speaker@) {
                            self.story.characters@[speaker@].name@
                        } else {
                            speaker@
                        })
                        &&& text@ == t@
                    },
                    SceneCommand::PlayerThinks { text: t } => name@ == "内心想法"@ && text@ == t@,
                    SceneCommand::PlayerSays { text: t } => name@ == "玩家"@ && text@ == t@,
                    _ => name@ == ""@ && text@ == ""@,
                }
            },
    {
        let id = match &self.current_scene {
            Some(id) => id,
            None => return None,
        };
        let scene = match self.story.get_scene(id.as_str()) {
            Some(s) => s,
            None => return None,
        };
        if self.scene_index > 0 && self.scene_index <= scene.commands.len() {
            match &scene.commands[self.scene_index - 1] {
                SceneCommand::Dialogue { speaker, text } => {
                    let name = match self.story.get_character(speaker.as_str()) {
                        Some(c) => c.name.clone(),
                        None => speaker.clone(),
                    };
                    Some((name, text.clone()))
                },
                SceneCommand::PlayerThinks { text } => Some((owned("内心想法"), text.clone())),
                SceneCommand::PlayerSays { text } => Some((owned("玩家"), text.clone())),
                _ => Some((owned(""), owned(""))),
            }
        } else {
            None
        }
    }
}

/// Whether, running from `i`, a jump is met before any command that waits.
fn jump_reachable_from(cmds: &Vec<SceneCommand>, i: usize) -> (r: bool)
    ensures
        r == jump_reachable(cmds@, i as int),
{
    let mut k: usize = i;
    while k < cmds.len()
        invariant
            i <= k,
            forall|j: int| i <= j < k ==> !stops(#[trigger] cmds@[j]),
        decreases cmds@.len() - k,
    {
        match &cmds[k] {
            SceneCommand::Jump { .. } => {
                assert(cmds@[k as int] is Jump);
                return true;
            },
            SceneCommand::Dialogue { .. } | SceneCommand::PlayerThinks { .. }
            | SceneCommand::PlayerSays { .. } | SceneCommand::ShowChoices { .. }
            | SceneCommand::EndWith { .. } => {
                assert(stops(cmds@[k as int]));
                assert(!jump_reachable(cmds@, i as int)) by {
                    if jump_reachable(cmds@, i as int) {
                        let m = choose|m: int|
                            #![trigger cmds@[m]]
                            i <= m < cmds@.len() && cmds@[m] is Jump && forall|j: int|
                                i <= j < m ==> !stops(#[trigger] cmds@[j]);
                        if m > k {
                            assert(!stops(cmds@[k as int]));
                        }
                    }
                }
                return false;
            },
            _ => {},
        }
        k = k + 1;
    }
    assert(!jump_reachable(cmds@, i as int)) by {
        if jump_reachable(cmds@, i as int) {
            let m = choose|m: int|
                #![trigger cmds@[m]]
                i <= m < cmds@.len() && cmds@[m] is Jump && forall|j: int|
                    i <= j < m ==> !stops(#[trigger] cmds@[j]);
            assert(!stops(cmds@[m]));
        }
    }
    false
}

impl RavenStory {
    /// Whether the next frame ends: it runs no command, or it never meets a
    /// second jump that would send it round for ever.
    pub fn frame_terminates(&self) -> (r: bool)
        ensures
            r == (frame_runs(*self) ==> progress_terminates(
                self.story.scenes@[self.current_scene->0@].commands@,
                self.scene_index as int,
            )),
    {
        if self.waiting_for_input || self.waiting_for_asset_load {
            return true;
        }
        let id = match &self.current_scene {
            Some(id) => id,
            None => return true,
        };
        match self.story.get_scene(id.as_str()) {
            Some(scene) => {
                !jump_reachable_from(&scene.commands, self.scene_index)
                    || !jump_reachable_from(&scene.commands, 1)
            },
            None => true,
        }
    }
}

/// The paths in `paths` that are not yet in `cache`, in order and each once,
/// as loading them one by one into the cache finds them.
pub open spec fn fresh_paths(paths: Seq<Seq<char>>, cache: Seq<Seq<char>>) -> Seq<Seq<char>>
    decreases paths.len(),
{
    if paths.len() == 0 {
        seq![]
    } else if cache.contains(paths[0]) {
        fresh_paths(paths.skip(1), cache)
    } else {
        seq![paths[0]] + fresh_paths(paths.skip(1), cache.push(paths[0]))
    }
}

/// The images of the backgrounds of a script, in the order of its entries.
pub open spec fn background_images(story: Script) -> Seq<Seq<char>> {
    story.backgrounds.pairs().map_values(|e: (Seq<char>, crate::raven::background::Background)| e.1.image@)
}

/// The sprites of the characters of a script, in the order of its entries.
pub open spec fn character_sprites(story: Script) -> Seq<Seq<char>> {
    story.characters.pairs().map_values(|e: (Seq<char>, crate::raven::character::Character)| e.1.sprite@)
}

/// Appends to `out` the paths among `paths` that are not in `cache`, adding
/// each to the cache as it goes.
fn collect_fresh(paths: &Vec<String>, cache: &mut Vec<String>, out: &mut Vec<String>)
    ensures
        id_views(final(out)@) == id_views(old(out)@) + fresh_paths(id_views(paths@), id_views(old(cache)@)),
{
    let ghost pv = id_views(paths@);
    let ghost whole = fresh_paths(pv, id_views(cache@));
    let ghost out0 = id_views(out@);
    let mut i: usize = 0;
    assert(pv.skip(0) =~= pv);
    while i < paths.len()
        invariant
            pv == id_views(paths@),
            i <= paths@.len(),
            out0 + whole == id_views(out@) + fresh_paths(pv.skip(i as int), id_views(cache@)),
        decreases paths@.len() - i,
    {
        let ghost rest = pv.skip(i as int);
        assert(rest[0] == paths@[i as int]@);
        assert(rest.skip(1) =~= pv.skip(i + 1));
        if !holds_id(cache, &paths[i]) {
            let ghost before_out = id_views(out@);
            let ghost before_cache = id_views(cache@);
            cache.push(paths[i].clone());
            out.push(paths[i].clone());
            assert(id_views(cache@) =~= before_cache.push(paths@[i as int]@));
            assert(id_views(out@) =~= before_out.push(paths@[i as int]@));
            assert(id_views(out@) + fresh_paths(pv.skip(i + 1), id_views(cache@)) =~= before_out
                + (seq![rest[0]] + fresh_paths(rest.skip(1), before_cache.push(rest[0]))));
        }
        i = i + 1;
    }
    assert(fresh_paths(pv.skip(paths@.len() as int), id_views(cache@)) =~= Seq::<Seq<char>>::empty());
    assert(id_views(out@) =~= out0 + whole);
}

/// A copy of a list of ids.
fn copy_ids(v: &Vec<String>) -> (r: Vec<String>)
    ensures
        id_views(r@) == id_views(v@),
{
    let mut r: Vec<String> = Vec::new();
    let mut k: usize = 0;
    while k < v.len()
        invariant
            k <= v@.len(),
            id_views(r@) =~= id_views(v@).take(k as int),
        decreases v@.len() - k,
    {
        let ghost before = id_views(r@);
        r.push(v[k].clone());
        assert(id_views(r@) =~= before.push(v@[k as int]@));
        assert(id_views(v@).take(k + 1) =~= id_views(v@).take(k as int).push(v@[k as int]@));
        k = k + 1;
    }
    assert(id_views(v@).take(v@.len() as int) =~= id_views(v@));
    r
}

/// The images that still have to be loaded: first the background images,
/// then the character sprites, each list holding the paths its cache does
/// not hold yet, in the order of the script's entries and each once.
pub fn assets_to_preload(
    story: &Script,
    cached_backgrounds: &Vec<String>,
    cached_characters: &Vec<String>,
) -> (r: (Vec<String>, Vec<String>))
    ensures
        id_views(r.0@) == fresh_paths(background_images(*story), id_views(cached_backgrounds@)),
        id_views(r.1@) == fresh_paths(character_sprites(*story), id_views(cached_characters@)),
{
    let mut bg_paths: Vec<String> = Vec::new();
    let mut i: usize = 0;
    let nb = story.backgrounds.len();
    while i < nb
        invariant
            nb == story.backgrounds.pairs().len(),
            i <= nb,
            id_views(bg_paths@) =~= background_images(*story).take(i as int),
        decreases nb - i,
    {
        let (_, bg) = story.backgrounds.entry(i);
        let ghost before = id_views(bg_paths@);
        bg_paths.push(bg.image.clone());
        assert(id_views(bg_paths@) =~= before.push(bg.image@));
        assert(background_images(*story).take(i + 1) =~= background_images(*story).take(i as int).push(bg.image@));
        i = i + 1;
    }
    let mut ch_paths: Vec<String> = Vec::new();
    let mut j: usize = 0;
    let nc = story.characters.len();
    while j < nc
        invariant
            nc == story.characters.pairs().len(),
            j <= nc,
            id_views(ch_paths@) =~= character_sprites(*story).take(j as int),
        decreases nc - j,
    {
        let (_, c) = story.characters.entry(j);
        let ghost before = id_views(ch_paths@);
        ch_paths.push(c.sprite.clone());
        assert(id_views(ch_paths@) =~= before.push(c.sprite@));
        assert(character_sprites(*story).take(j + 1) =~= character_sprites(*story).take(j as int).push(c.sprite@));
        j = j + 1;
    }
    assert(background_images(*story).take(nb as int) =~= background_images(*story));
    assert(character_sprites(*story).take(nc as int) =~= character_sprites(*story));
    let mut bg_cache = copy_ids(cached_backgrounds);
    let mut ch_cache = copy_ids(cached_characters);
    let mut new_bg: Vec<String> = Vec::new();
    collect_fresh(&bg_paths, &mut bg_cache, &mut new_bg);
    let mut new_ch: Vec<String> = Vec::new();
    collect_fresh(&ch_paths, &mut ch_cache, &mut new_ch);
    assert(id_views(new_bg@) =~= fresh_paths(background_images(*story), id_views(cached_backgrounds@)));
    assert(id_views(new_ch@) =~= fresh_paths(character_sprites(*story), id_views(cached_characters@)));
    (new_bg, new_ch)
}

/// The text shown once a story has been played to its end.
pub fn get_game_result() -> (r: String)
    ensures
        r@ == "游戏已完成"@,
{
    owned("游戏已完成")
}

/// A typewriter that reveals a text one character at a time.
#[derive(Debug)]
pub struct TypewriterEffect {
    pub full_text: String,
    pub current_char_index: usize,
    pub is_finished: bool,
}

impl TypewriterEffect {
    /// A typewriter at the start of `text`.
    pub fn new(text: String) -> (t: Self)
        ensures
            t.full_text == text,
            t.current_char_index == 0,
            !t.is_finished,
    {
        Self { full_text: text, current_char_index: 0, is_finished: false }
    }

    /// Starts over with `text`.
    pub fn start_new_text(&mut self, text: String)
        ensures
            final(self).full_text == text,
            final(self).current_char_index == 0,
            !final(self).is_finished,
    {
        self.full_text = text;
        self.current_char_index = 0;
        self.is_finished = false;
    }

    /// Reveals the whole text at once.
    pub fn skip_to_end(&mut self)
        ensures
            final(self).full_text == old(self).full_text,
            final(self).current_char_index == old(self).full_text@.len(),
            final(self).is_finished,
    {
        let n = chars_of(self.full_text.as_str()).len();
        self.current_char_index = n;
        self.is_finished = true;
    }

    /// The part of the text revealed so far.
    pub fn get_current_text(&self) -> (r: String)
        ensures
            r@ == first_chars(self.full_text@, self.current_char_index as int),
    {
        take_chars(self.full_text.as_str(), self.current_char_index)
    }
}

proof fn lemma_run_ends(
    cmds: Seq<SceneCommand>,
    i: int,
    scene: Option<String>,
    story: Script,
    shown: Seq<Seq<char>>,
    fuel: nat,
    jumped: bool,
)
    requires
        0 <= i,
        !jumped ==> progress_terminates(cmds, i) && fuel + i >= 2 * cmds.len() + 1,
        jumped ==> !jump_reachable(cmds, i) && fuel + i >= cmds.len() + 1,
    ensures
        ({
            let p = progress_run(cmds, i, scene, story, shown, fuel);
            p.waiting || p.index >= cmds.len()
        }),
    decreases fuel,
{
    if i < cmds.len() {
        let cmd = cmds[i];
        if !pauses(cmd) {
            match cmd {
                SceneCommand::Jump { scene: target } => {
                    assert(jump_reachable(cmds, i));
                    lemma_run_ends(cmds, 1, Some(target), story, shown, (fuel - 1) as nat, true);
                },
                _ => {
                    lemma_reach_step(cmds, i);
                    lemma_run_ends(cmds, i + 1, scene, story, shown, (fuel - 1) as nat, jumped);
                },
            }
        }
    }
}

/// A line for the player stops the frame where it stands: running from a
/// command that shows a line (spoken, thought or said by the player), offers
/// choices or ends the story does just that command, shows it, and waits for
/// the player with the index on the next command.
pub proof fn law_lines_wait_for_the_player(
    cmds: Seq<SceneCommand>,
    i: int,
    scene: Option<String>,
    story: Script,
    shown: Seq<Seq<char>>,
    fuel: nat,
)
    requires
        0 <= i < cmds.len(),
        fuel > 0,
        cmds[i] is Dialogue || cmds[i] is PlayerThinks || cmds[i] is PlayerSays
            || cmds[i] is ShowChoices || cmds[i] is EndWith,
    ensures
        ({
            let p = progress_run(cmds, i, scene, story, shown, fuel);
            &&& p.waiting
            &&& p.index == i + 1
            &&& p.scene == scene
            &&& p.actions.len() == 1
            &&& match cmds[i] {
                SceneCommand::Dialogue { speaker, text } => p.actions[0]
                    == StoryAction::Dialogue { speaker, text },
                SceneCommand::PlayerThinks { text } => p.actions[0] == StoryAction::PlayerThinks {
                    text,
                },
                SceneCommand::PlayerSays { text } => p.actions[0] == StoryAction::PlayerSays {
                    text,
                },
                SceneCommand::ShowChoices { .. } => p.actions[0] == StoryAction::ShowChoices,
                SceneCommand::EndWith { ending } => p.actions[0] == StoryAction::EndWith { ending },
                _ => false,
            }
        }),
{
}

/// A frame that ends stops in only two ways: the story waits for the player,
/// or the command list of the frame's scene has been run to its end.
pub proof fn law_frame_waits_or_reaches_end(
    cmds: Seq<SceneCommand>,
    i: int,
    scene: Option<String>,
    story: Script,
    shown: Seq<Seq<char>>,
)
    requires
        0 <= i,
        progress_terminates(cmds, i),
    ensures
        ({
            let p = progress_run(cmds, i, scene, story, shown, (2 * cmds.len() + 2) as nat);
            p.waiting || p.index >= cmds.len()
        }),
{
    lemma_run_ends(cmds, i, scene, story, shown, (2 * cmds.len() + 2) as nat, false);
}

/// The images to load are images of the list, none of them is cached yet,
/// none is listed twice, and every uncached image of the list is among them.
pub proof fn law_fresh_paths(paths: Seq<Seq<char>>, cache: Seq<Seq<char>>)
    ensures
        ({
            let f = fresh_paths(paths, cache);
            &&& forall|k: int| 0 <= k < f.len() ==> paths.contains(#[trigger] f[k]) && !cache.contains(f[k])
            &&& forall|a: int, b: int| 0 <= a < b < f.len() ==> #[trigger] f[a] != #[trigger] f[b]
            &&& forall|q: Seq<char>| paths.contains(q) && !cache.contains(q) ==> #[trigger] f.contains(q)
        }),
    decreases paths.len(),
{
    if paths.len() > 0 {
        let p0 = paths[0];
        let rest = paths.skip(1);
        assert forall|q: Seq<char>| rest.contains(q) implies paths.contains(q) by {
            let k = choose|k: int| 0 <= k < rest.len() && rest[k] == q;
            assert(paths[k + 1] == q);
        }
        assert forall|q: Seq<char>| paths.contains(q) && q != p0 implies rest.contains(q) by {
            let k = choose|k: int| 0 <= k < paths.len() && paths[k] == q;
            assert(k != 0);
            assert(rest[k - 1] == q);
        }
        if cache.contains(p0) {
            law_fresh_paths(rest, cache);
            let f = fresh_paths(rest, cache);
            assert(fresh_paths(paths, cache) == f);
            assert forall|k: int| 0 <= k < f.len() implies paths.contains(#[trigger] f[k])
                && !cache.contains(f[k]) by {
                assert(rest.contains(f[k]));
            }
            assert forall|q: Seq<char>| paths.contains(q) && !cache.contains(q) implies #[trigger] f.contains(q) by {
                assert(q != p0);
                assert(rest.contains(q));
            }
        } else {
            let c2 = cache.push(p0);
            law_fresh_paths(rest, c2);
            let g = fresh_paths(rest, c2);
            let f = seq![p0] + g;
            assert(fresh_paths(paths, cache) == f);
            assert forall|q: Seq<char>| cache.contains(q) implies c2.contains(q) by {
                let k = choose|k: int| 0 <= k < cache.len() && cache[k] == q;
                assert(c2[k] == q);
            }
            assert(c2[cache.len() as int] == p0);
            assert forall|k: int| 0 <= k < f.len() implies paths.contains(#[trigger] f[k])
                && !cache.contains(f[k]) by {
                if k > 0 {
                    assert(f[k] == g[k - 1]);
                    if cache.contains(f[k]) {
                        assert(c2.contains(f[k]));
                    }
                } else {
                    assert(paths[0] == p0);
                }
            }
            assert forall|a: int, b: int| 0 <= a < b < f.len() implies #[trigger] f[a]
                != #[trigger] f[b] by {
                if a == 0 {
                    assert(f[b] == g[b - 1]);
                    assert(!c2.contains(g[b - 1]));
                } else {
                    assert(f[a] == g[a - 1] && f[b] == g[b - 1]);
                }
            }
            assert forall|q: Seq<char>| paths.contains(q) && !cache.contains(q) implies #[trigger] f.contains(q) by {
                if q == p0 {
                    assert(f[0] == q);
                } else {
                    assert(rest.contains(q));
                    assert(!c2.contains(q)) by {
                        if c2.contains(q) {
                            let k = choose|k: int| 0 <= k < c2.len() && c2[k] == q;
                            if k < cache.len() {
                                assert(cache[k] == q);
                            }
                        }
                    }
                    assert(g.contains(q));
                    let k = choose|k: int| 0 <= k < g.len() && g[k] == q;
                    assert(f[k + 1] == q);
                }
            }
        }
    }
}

} // verus!
