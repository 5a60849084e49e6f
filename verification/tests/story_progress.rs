use raven::raven::background::Background;
use raven::raven::character::Character;
use raven::raven::scene::{Choice, Scene, SceneCommand};
use raven::raven::script::Script;
use raven::raven::story::{
    assets_to_preload, get_game_result, RavenStory, StoryAction, TypewriterEffect,
};

fn s(x: &str) -> String {
    x.to_string()
}

fn story_script() -> Script {
    let mut script = Script::new();
    script.add_character(s("ling"), Character::new(s("灵"), s("ling.png")));
    script.add_character(s("mei"), Character::new(s("梅"), s("mei.png")));
    script.add_background(s("room"), Background::new(s("room.png")));
    script.add_background(s("hall"), Background::new(s("room.png")));
    let mut start = Scene::new();
    start.add_command(SceneCommand::ShowBackground { background: s("room") });
    start.add_command(SceneCommand::ShowCharacter { character: s("ling"), emotion: None });
    start.add_command(SceneCommand::ShowCharacter { character: s("ghost"), emotion: None });
    start.add_command(SceneCommand::PlayMusic { file: s("bgm.ogg") });
    start.add_command(SceneCommand::Dialogue { speaker: s("ling"), text: s("早上好") });
    start.add_command(SceneCommand::HideCharacter { character: s("ling") });
    start.add_command(SceneCommand::PlayerThinks { text: s("嗯") });
    start.add_command(SceneCommand::ShowChoices {
        choices: vec![Choice::new(s("a"), s("end"))],
    });
    start.add_command(SceneCommand::EndWith { ending: s("good") });
    script.add_scene(s("start"), start);
    script
}

fn ready(script: Script) -> RavenStory {
    let mut story = RavenStory::new(script);
    assert!(story.waiting_for_asset_load);
    story.check_asset_loading(true);
    assert!(!story.waiting_for_asset_load);
    story
}

#[test]
fn a_new_story_waits_for_its_images() {
    let mut story = RavenStory::new(story_script());
    assert_eq!(story.current_scene.as_deref(), Some("start"));
    assert_eq!(story.scene_index, 0);
    assert!(story.frame_terminates());
    assert!(story.handle_scene_progress(&vec![]).is_empty());
    story.check_asset_loading(false);
    assert!(story.waiting_for_asset_load);
    assert!(story.update_dialogue_display().is_none());
}

#[test]
fn frames_run_until_a_command_waits() {
    let mut story = ready(story_script());
    assert!(story.frame_terminates());
    let actions = story.handle_scene_progress(&vec![]);
    assert_eq!(actions.len(), 5);
    assert!(matches!(actions[0], StoryAction::ClearBackgrounds));
    match &actions[1] {
        StoryAction::SpawnBackground { background, image } => {
            assert_eq!((background.as_str(), image.as_str()), ("room", "room.png"));
        }
        other => panic!("unexpected {:?}", other),
    }
    match &actions[2] {
        StoryAction::SpawnCharacter { character, name, sprite, emotion } => {
            assert_eq!(character, "ling");
            assert_eq!(name, "灵");
            assert_eq!(sprite, "ling.png");
            assert!(emotion.is_none());
        }
        other => panic!("unexpected {:?}", other),
    }
    assert!(matches!(&actions[3], StoryAction::PlayMusic { file } if file == "bgm.ogg"));
    assert!(matches!(&actions[4], StoryAction::Dialogue { speaker, text }
        if speaker == "ling" && text == "早上好"));
    assert_eq!(story.scene_index, 5);
    assert!(story.waiting_for_input);
    assert_eq!(story.update_dialogue_display(), Some((s("灵"), s("早上好"))));

    // still waiting: nothing runs
    assert!(story.handle_scene_progress(&vec![]).is_empty());
    story.handle_input(false);
    assert!(story.waiting_for_input);
    story.handle_input(true);
    assert!(!story.waiting_for_input);

    // the character is on screen now, so hiding it despawns it
    let actions = story.handle_scene_progress(&vec![s("ling")]);
    assert_eq!(actions.len(), 2);
    assert!(matches!(&actions[0], StoryAction::DespawnCharacter { character } if character == "ling"));
    assert!(matches!(&actions[1], StoryAction::PlayerThinks { text } if text == "嗯"));
    assert_eq!(story.update_dialogue_display(), Some((s("内心想法"), s("嗯"))));

    story.handle_input(true);
    let actions = story.handle_scene_progress(&vec![]);
    assert_eq!(actions.len(), 1);
    assert!(matches!(actions[0], StoryAction::ShowChoices));
    assert_eq!(story.update_dialogue_display(), Some((s(""), s(""))));

    story.handle_input(true);
    let actions = story.handle_scene_progress(&vec![]);
    assert!(matches!(&actions[0], StoryAction::EndWith { ending } if ending == "good"));
    story.handle_input(true);
    assert!(story.handle_scene_progress(&vec![]).is_empty());
    assert_eq!(story.scene_index, 9);
    assert!(story.update_dialogue_display().is_some());
}

#[test]
fn a_shown_character_is_not_spawned_again() {
    let mut script = Script::new();
    script.add_character(s("ling"), Character::new(s("灵"), s("ling.png")));
    let mut start = Scene::new();
    start.add_command(SceneCommand::ShowCharacter { character: s("ling"), emotion: None });
    start.add_command(SceneCommand::HideCharacter { character: s("mei") });
    start.add_command(SceneCommand::PlayerSays { text: s("hi") });
    script.add_scene(s("start"), start);
    let mut story = ready(script);
    let actions = story.handle_scene_progress(&vec![s("ling")]);
    assert_eq!(actions.len(), 1);
    assert!(matches!(&actions[0], StoryAction::PlayerSays { text } if text == "hi"));
    assert_eq!(story.update_dialogue_display(), Some((s("玩家"), s("hi"))));
}

#[test]
fn a_jump_switches_scene_but_runs_on_in_the_same_list() {
    let mut script = Script::new();
    let mut start = Scene::new();
    start.add_command(SceneCommand::Jump { scene: s("other") });
    start.add_command(SceneCommand::PlayerSays { text: s("after jump") });
    script.add_scene(s("start"), start);
    let mut other = Scene::new();
    other.add_command(SceneCommand::PlayerSays { text: s("other 0") });
    other.add_command(SceneCommand::PlayerSays { text: s("other 1") });
    script.add_scene(s("other"), other);
    let mut story = ready(script);
    assert!(story.frame_terminates());
    let actions = story.handle_scene_progress(&vec![]);
    // after the jump the index is 0, then moves on to 1, and the start
    // scene's list is run on from there
    assert_eq!(actions.len(), 2);
    assert!(matches!(&actions[0], StoryAction::Jump { scene } if scene == "other"));
    assert!(matches!(&actions[1], StoryAction::PlayerSays { text } if text == "after jump"));
    assert_eq!(story.current_scene.as_deref(), Some("other"));
    assert_eq!(story.scene_index, 2);
    // the dialogue box reads the new scene at the index reached
    assert_eq!(story.update_dialogue_display(), Some((s("玩家"), s("other 1"))));
}

#[test]
fn a_frame_that_would_jump_for_ever_is_detected() {
    let mut script = Script::new();
    let mut start = Scene::new();
    start.add_command(SceneCommand::ShowBackground { background: s("x") });
    start.add_command(SceneCommand::Jump { scene: s("start") });
    script.add_scene(s("start"), start);
    let story = ready(script);
    assert!(!story.frame_terminates());
}

#[test]
fn a_missing_scene_runs_nothing() {
    let mut script = Script::new();
    script.start_scene = Some(s("nowhere"));
    let mut story = ready(script);
    assert!(story.frame_terminates());
    assert!(story.handle_scene_progress(&vec![]).is_empty());
    assert!(story.update_dialogue_display().is_none());
}

#[test]
fn exit_does_not_wait() {
    let mut script = Script::new();
    let mut start = Scene::new();
    start.add_command(SceneCommand::ExitGame);
    start.add_command(SceneCommand::Dialogue { speaker: s("x"), text: s("y") });
    script.add_scene(s("start"), start);
    let mut story = ready(script);
    let actions = story.handle_scene_progress(&vec![]);
    assert_eq!(actions.len(), 2);
    assert!(matches!(actions[0], StoryAction::Exit));
    assert!(matches!(&actions[1], StoryAction::Dialogue { speaker, .. } if speaker == "x"));
}

#[test]
fn preload_lists_each_uncached_image_once() {
    let script = story_script();
    let (bgs, chars) = assets_to_preload(&script, &vec![], &vec![s("mei.png")]);
    assert_eq!(bgs, vec![s("room.png")]);
    assert_eq!(chars, vec![s("ling.png")]);
    let (bgs, chars) = assets_to_preload(&script, &vec![s("room.png")], &vec![]);
    assert!(bgs.is_empty());
    assert_eq!(chars, vec![s("ling.png"), s("mei.png")]);
}

#[test]
fn finished_story_text() {
    assert_eq!(get_game_result(), "游戏已完成");
}

#[test]
fn typewriter_effect_reveals_by_characters() {
    let mut t = TypewriterEffect::new(s("你好吗"));
    assert_eq!(t.get_current_text(), "");
    assert!(!t.is_finished);
    t.current_char_index = 2;
    assert_eq!(t.get_current_text(), "你好");
    t.skip_to_end();
    assert!(t.is_finished);
    assert_eq!(t.current_char_index, 3);
    assert_eq!(t.get_current_text(), "你好吗");
    t.start_new_text(s("ok"));
    assert_eq!(t.current_char_index, 0);
    assert!(!t.is_finished);
    assert_eq!(t.get_current_text(), "");
}
