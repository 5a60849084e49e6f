use raven::raven::character::Character;
use raven::raven::game::{
    end_raven_game, get_current_story, run_raven_game_with_story, set_game_ending,
    start_scene_ends_game, CommandReport, GameState,
};
use raven::raven::scene::{Choice, Scene, SceneCommand};
use raven::raven::script::Script;
use raven::raven::background::Background;
use raven::raven::{get_game_result, GameResult};

fn s(x: &str) -> String {
    x.to_string()
}

#[test]
fn character_new_has_no_color() {
    let c = Character::new(s("hytomzzz"), s("Schematics.png"));
    assert_eq!(c.name, "hytomzzz");
    assert_eq!(c.sprite, "Schematics.png");
    assert!(c.color.is_none());
}

#[test]
fn character_with_color_keeps_name_and_sprite() {
    let c = Character::new(s("ling"), s("ling.png")).with_color(s("#ff0000"));
    assert_eq!(c.name, "ling");
    assert_eq!(c.sprite, "ling.png");
    assert_eq!(c.color.as_deref(), Some("#ff0000"));
}

#[test]
fn first_scene_added_is_start_scene() {
    let mut script = Script::new();
    assert!(script.start_scene.is_none());
    script.add_scene(s("start"), Scene::new());
    script.add_scene(s("start2"), Scene::new());
    assert_eq!(script.start_scene.as_deref(), Some("start"));
    assert!(script.get_scene("start2").is_some());
    assert!(script.get_scene("missing").is_none());
}

#[test]
fn adding_a_character_twice_keeps_the_last() {
    let mut script = Script::new();
    script.add_character(s("ling"), Character::new(s("A"), s("a.png")));
    script.add_character(s("ling"), Character::new(s("B"), s("b.png")));
    assert_eq!(script.characters.len(), 1);
    assert_eq!(script.get_character("ling").unwrap().name, "B");
}

#[test]
fn background_with_music() {
    let b = Background::new(s("room.png")).with_music(s("bgm.ogg"));
    assert_eq!(b.image, "room.png");
    assert_eq!(b.music.as_deref(), Some("bgm.ogg"));
}

#[test]
fn set_ending_then_read_it_back() {
    let mut state = GameState::new();
    assert!(matches!(get_game_result(&state), GameResult::Playing));
    set_game_ending(&mut state, s("good end"));
    match get_game_result(&state) {
        GameResult::Ending(e) => assert_eq!(e, "good end"),
        other => panic!("unexpected {:?}", other),
    }
    // quitting keeps an ending
    assert!(!end_raven_game(&mut state));
    assert!(matches!(get_game_result(&state), GameResult::Ending(_)));
}

#[test]
fn quit_only_from_playing() {
    let mut state = GameState::new();
    assert!(end_raven_game(&mut state));
    assert!(matches!(state.result, GameResult::Quit));
    assert!(!end_raven_game(&mut state));
    assert!(matches!(state.result, GameResult::Quit));
}

fn sample_script() -> Script {
    let mut script = Script::new();
    script.add_character(s("ling"), Character::new(s("hytomzzz"), s("Schematics.png")));
    script.add_background(s("Classroom"), Background::new(s("Schematics.png")));
    let mut start = Scene::new();
    start.add_command(SceneCommand::ShowBackground { background: s("Classroom2") });
    start.add_command(SceneCommand::ShowBackground { background: s("Classroom") });
    start.add_command(SceneCommand::Dialogue { speaker: s("ling"), text: s("start！") });
    start.add_command(SceneCommand::Dialogue { speaker: s("nobody"), text: s("hi") });
    start.add_command(SceneCommand::ShowChoices {
        choices: vec![Choice::new(s("yes"), s("a")), Choice::new(s("no"), s("b"))],
    });
    script.add_scene(s("start"), start);
    script
}

#[test]
fn running_a_story_reports_its_start_scene() {
    let mut state = GameState::new();
    let script = sample_script();
    assert!(!start_scene_ends_game(&script));
    let report = run_raven_game_with_story(&mut state, Some(script));
    let summary = report.loaded.unwrap();
    assert_eq!((summary.characters, summary.scenes, summary.backgrounds), (1, 1, 1));
    assert_eq!(report.start.as_deref(), Some("start"));
    assert_eq!(state.current_scene.as_deref(), Some("start"));
    assert!(matches!(state.result, GameResult::Playing));
    assert_eq!(report.commands.len(), 5);
    assert!(matches!(report.commands[0], CommandReport::Skipped));
    match &report.commands[1] {
        CommandReport::ShowBackground { background, image } => {
            assert_eq!(background, "Classroom");
            assert_eq!(image, "Schematics.png");
        }
        other => panic!("unexpected {:?}", other),
    }
    match &report.commands[2] {
        CommandReport::Dialogue { speaker, text } => {
            assert_eq!(speaker, "hytomzzz");
            assert_eq!(text, "start！");
        }
        other => panic!("unexpected {:?}", other),
    }
    match &report.commands[3] {
        CommandReport::Dialogue { speaker, .. } => assert_eq!(speaker, "nobody"),
        other => panic!("unexpected {:?}", other),
    }
    match &report.commands[4] {
        CommandReport::ShowChoices { choices } => {
            assert_eq!(choices, &vec![(s("yes"), s("a")), (s("no"), s("b"))]);
        }
        other => panic!("unexpected {:?}", other),
    }
    assert!(get_current_story(&state).is_some());
}

#[test]
fn running_without_a_story() {
    let mut state = GameState::new();
    set_game_ending(&mut state, s("old"));
    let report = run_raven_game_with_story(&mut state, None);
    assert!(report.loaded.is_none());
    assert!(report.start.is_none());
    assert!(report.commands.is_empty());
    assert!(matches!(state.result, GameResult::Playing));
    assert!(get_current_story(&state).is_none());
}

#[test]
fn a_start_scene_that_exits_is_detected() {
    let mut script = Script::new();
    let mut start = Scene::new();
    start.add_command(SceneCommand::PlayerSays { text: s("bye") });
    start.add_command(SceneCommand::ExitGame);
    script.add_scene(s("start"), start);
    assert!(start_scene_ends_game(&script));
}

#[test]
fn game_results_compare_by_value() {
    assert_eq!(GameResult::Ending(s("good")), GameResult::Ending(s("good")));
    assert_ne!(GameResult::Ending(s("good")), GameResult::Ending(s("bad")));
    assert_eq!(GameResult::Quit, GameResult::Quit);
    assert_ne!(GameResult::Playing, GameResult::Quit);
    assert_ne!(GameResult::Error(s("x")), GameResult::Ending(s("x")));
    let mut state = GameState::new();
    set_game_ending(&mut state, s("good"));
    assert_eq!(get_game_result(&state), GameResult::Ending(s("good")));
}
