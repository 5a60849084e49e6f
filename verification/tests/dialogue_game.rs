use raven::config::MainConfig;
use raven::game::{
    apply_jump, build_label_map, create_dynamic_buttons, current_has_choices,
    handle_choice_buttons, handle_input, is_game_entity_name, keyboard_system, named_entities,
    portrait_path, portrait_paths,
    setup_game_state, should_create_buttons, speaker_color, substitute_variables,
    update_background, update_dialogue, update_portrait, update_swf, BackgroundUpdate,
    ButtonPlan, Choice, Dialogue, InputFrame, JumpCheck, JumpOutcome, NameBox,
    NameColor, PortraitUpdate, Typewriter, TypewriterText,
};

fn s(x: &str) -> String {
    x.to_string()
}

fn line(character: &str, text: &str) -> Dialogue {
    Dialogue {
        character: s(character),
        text: s(text),
        portrait: s("ling"),
        background: None,
        swf: None,
        label: None,
        jump: None,
        choices: None,
    }
}

fn sample_lines() -> Vec<Dialogue> {
    let mut d0 = line("希尔薇", "你好");
    d0.label = Some(s("start"));
    let mut d1 = line("我", "走吧");
    d1.jump = Some(s("end"));
    let mut d2 = line("none", "旁白");
    d2.choices = Some(vec![
        Choice { text: s("左"), goto: s("0") },
        Choice { text: s("右"), goto: s("3") },
    ]);
    let mut d3 = line("莉莉", "再见");
    d3.label = Some(s("end"));
    let mut d4 = line("艾莉娅", "尾声");
    d4.label = Some(s("end"));
    vec![d0, d1, d2, d3, d4]
}

fn no_input() -> InputFrame {
    InputFrame { escape: false, digit_jumps: vec![], back: false, advance: false }
}

#[test]
fn label_map_keeps_last_line_with_label() {
    let labels = build_label_map(&sample_lines());
    assert_eq!(labels.0.get("start"), Some(&0));
    assert_eq!(labels.0.get("end"), Some(&4));
    assert_eq!(labels.0.get("middle"), None);
    assert_eq!(labels.0.len(), 2);
}

#[test]
fn new_game_starts_at_first_line() {
    let (state, labels) = setup_game_state(sample_lines());
    assert_eq!(state.current_line, 0);
    assert!(!state.can_go_back);
    assert!(state.jump_label.is_none());
    assert!(!state.in_branch_selection);
    assert_eq!(state.dialogues.len(), 5);
    assert_eq!(labels.0.get("end"), Some(&4));
}

#[test]
fn escape_returns_to_the_menu_without_sound() {
    let (mut state, _) = setup_game_state(sample_lines());
    let mut input = no_input();
    input.escape = true;
    input.advance = true;
    let effects = handle_input(&mut state, &input);
    assert!(effects.to_menu);
    assert_eq!(effects.sounds, 0);
    assert_eq!(state.current_line, 0);
}

#[test]
fn advance_moves_one_line_and_allows_back() {
    let (mut state, _) = setup_game_state(sample_lines());
    let mut input = no_input();
    input.advance = true;
    let effects = handle_input(&mut state, &input);
    assert!(!effects.to_menu);
    assert_eq!(effects.sounds, 1);
    assert_eq!(state.current_line, 1);
    assert!(state.can_go_back);
}

#[test]
fn advance_on_a_jump_line_asks_for_the_jump() {
    let (mut state, labels) = setup_game_state(sample_lines());
    state.current_line = 1;
    let mut input = no_input();
    input.advance = true;
    let effects = handle_input(&mut state, &input);
    assert_eq!(effects.sounds, 1);
    assert_eq!(state.current_line, 1);
    assert_eq!(state.jump_label.as_deref(), Some("end"));
    match apply_jump(&labels, &mut state) {
        JumpOutcome::Jumped { from, to } => assert_eq!((from, to), (1, 4)),
        other => panic!("unexpected {:?}", other),
    }
    assert_eq!(state.current_line, 4);
    assert!(state.jump_label.is_none());
    assert!(matches!(apply_jump(&labels, &mut state), JumpOutcome::NoJump));
}

#[test]
fn jump_to_unknown_label_keeps_the_line() {
    let (mut state, labels) = setup_game_state(sample_lines());
    state.current_line = 2;
    state.jump_label = Some(s("nowhere"));
    match apply_jump(&labels, &mut state) {
        JumpOutcome::Missing { label } => assert_eq!(label, "nowhere"),
        other => panic!("unexpected {:?}", other),
    }
    assert_eq!(state.current_line, 2);
    assert!(state.jump_label.is_none());
    assert!(!state.can_go_back);
}

#[test]
fn digits_then_back_then_advance() {
    let (mut state, _) = setup_game_state(sample_lines());
    state.can_go_back = true;
    let input = InputFrame { escape: false, digit_jumps: vec![3, 1], back: true, advance: true };
    let effects = handle_input(&mut state, &input);
    // the last digit wins (line 1), back steps to line 0, which forbids going
    // back, and the advance moves on to line 1 again
    assert_eq!(effects.sounds, 2);
    assert_eq!(state.current_line, 1);
    assert!(state.can_go_back);
}

#[test]
fn branch_selection_stops_advancing() {
    let (mut state, _) = setup_game_state(sample_lines());
    state.current_line = 2;
    state.in_branch_selection = true;
    let mut input = no_input();
    input.advance = true;
    let effects = handle_input(&mut state, &input);
    assert_eq!(effects.sounds, 0);
    assert_eq!(state.current_line, 2);
}

#[test]
fn advance_past_the_last_line_does_nothing() {
    let (mut state, _) = setup_game_state(sample_lines());
    state.current_line = 5;
    let mut input = no_input();
    input.advance = true;
    let effects = handle_input(&mut state, &input);
    assert_eq!(effects.sounds, 0);
    assert_eq!(state.current_line, 5);
}

#[test]
fn left_arrow_steps_back() {
    let (mut state, _) = setup_game_state(sample_lines());
    assert!(!keyboard_system(&mut state, true));
    state.current_line = 2;
    state.can_go_back = true;
    state.in_branch_selection = true;
    assert!(keyboard_system(&mut state, true));
    assert_eq!(state.current_line, 1);
    assert!(state.can_go_back);
    assert!(!state.in_branch_selection);
    assert!(keyboard_system(&mut state, true));
    assert_eq!(state.current_line, 0);
    assert!(!state.can_go_back);
    assert!(!keyboard_system(&mut state, false));
}

#[test]
fn left_arrow_keeps_branch_selection_from_line_five_on() {
    let mut lines = sample_lines();
    lines.extend(sample_lines());
    let (mut state, _) = setup_game_state(lines);
    state.current_line = 7;
    state.can_go_back = true;
    state.in_branch_selection = true;
    assert!(keyboard_system(&mut state, true));
    assert_eq!(state.current_line, 6);
    assert!(state.in_branch_selection);
}

#[test]
fn choice_buttons_move_to_the_last_numeric_target() {
    let (mut state, _) = setup_game_state(sample_lines());
    state.current_line = 2;
    state.in_branch_selection = true;
    assert!(!handle_choice_buttons(&mut state, &vec![s("x")]));
    assert_eq!(state.current_line, 2);
    assert!(state.in_branch_selection);
    assert!(handle_choice_buttons(&mut state, &vec![s("3"), s("bad"), s("4")]));
    assert_eq!(state.current_line, 4);
    assert!(state.can_go_back);
    assert!(!state.in_branch_selection);
}

#[test]
fn dynamic_buttons_follow_the_choices() {
    let (mut state, _) = setup_game_state(sample_lines());
    state.current_line = 2;
    assert!(current_has_choices(&state));
    assert!(should_create_buttons(&state, false));
    assert!(!should_create_buttons(&state, true));
    match create_dynamic_buttons(&mut state) {
        ButtonPlan::Show { choices } => {
            assert_eq!(choices, vec![(0, s("左"), s("0")), (1, s("右"), s("3"))]);
        }
        other => panic!("unexpected {:?}", other),
    }
    assert!(state.in_branch_selection);
    state.current_line = 3;
    assert!(should_create_buttons(&state, true));
    assert!(matches!(create_dynamic_buttons(&mut state), ButtonPlan::Clear));
    assert!(!state.in_branch_selection);
    state.current_line = 9;
    assert!(matches!(create_dynamic_buttons(&mut state), ButtonPlan::Nothing));
}

#[test]
fn speaker_colors() {
    assert_eq!(speaker_color("希尔薇"), NameColor::Sylvie);
    assert_eq!(speaker_color("我"), NameColor::Me);
    assert_eq!(speaker_color("艾莉娅"), NameColor::Aria);
    assert_eq!(speaker_color("莉莉"), NameColor::Lily);
    assert_eq!(speaker_color("路人"), NameColor::Plain);
}

#[test]
fn dialogue_boxes_for_each_line() {
    let (mut state, labels) = setup_game_state(sample_lines());
    let d = update_dialogue(&state, &labels);
    match d.namebox {
        NameBox::Shown { name, color } => {
            assert_eq!(name, "希尔薇");
            assert_eq!(color, NameColor::Sylvie);
        }
        other => panic!("unexpected {:?}", other),
    }
    assert_eq!(d.textbox, "你好");
    assert!(matches!(d.jump, JumpCheck::NoJump));

    state.current_line = 1;
    let d = update_dialogue(&state, &labels);
    assert!(matches!(d.jump, JumpCheck::Found { line: 4 }));

    state.current_line = 2;
    let d = update_dialogue(&state, &labels);
    assert!(matches!(d.namebox, NameBox::Hidden));
    assert_eq!(d.textbox, "旁白");

    state.current_line = 5;
    let d = update_dialogue(&state, &labels);
    assert!(matches!(d.namebox, NameBox::Ended));
    assert_eq!(d.textbox, "感谢体验，按下ESC退出");
}

#[test]
fn dialogue_box_reports_a_missing_jump_label() {
    let mut lines = sample_lines();
    lines[0].jump = Some(s("void"));
    let (state, labels) = setup_game_state(lines);
    let d = update_dialogue(&state, &labels);
    match d.jump {
        JumpCheck::Missing { label } => assert_eq!(label, "void"),
        other => panic!("unexpected {:?}", other),
    }
}

#[test]
fn portrait_shown_only_when_loaded() {
    let (mut state, _) = setup_game_state(sample_lines());
    match update_portrait(&state, &vec![s("ling")]) {
        PortraitUpdate::Show { key } => assert_eq!(key, "ling"),
        other => panic!("unexpected {:?}", other),
    }
    assert!(matches!(update_portrait(&state, &vec![s("other")]), PortraitUpdate::Missing { .. }));
    state.current_line = 5;
    assert!(matches!(update_portrait(&state, &vec![s("ling")]), PortraitUpdate::Hide));
}

#[test]
fn background_switches_once() {
    let mut lines = sample_lines();
    lines[0].background = Some(s("room"));
    let (mut state, _) = setup_game_state(lines);
    let sprites = vec![(s("background_hall"), true), (s("background_room"), false)];
    match update_background(&state, &sprites) {
        BackgroundUpdate::SwitchTo { target } => assert_eq!(target, "background_room"),
        other => panic!("unexpected {:?}", other),
    }
    let shown = vec![(s("background_hall"), false), (s("background_room"), true)];
    assert!(matches!(update_background(&state, &shown), BackgroundUpdate::Keep));
    let missing = vec![(s("background_hall"), true)];
    assert!(matches!(update_background(&state, &missing), BackgroundUpdate::Keep));
    state.current_line = 1;
    assert!(matches!(update_background(&state, &sprites), BackgroundUpdate::HideAll));
    state.current_line = 5;
    assert!(matches!(update_background(&state, &sprites), BackgroundUpdate::Keep));
}

#[test]
fn swf_shown_once_loaded() {
    let mut lines = sample_lines();
    lines[0].swf = Some(s("rain"));
    let (mut state, _) = setup_game_state(lines);
    let names = vec![s("swf_snow"), s("swf_rain"), s("swf_rain")];
    let u = update_swf(&state, &names, true);
    assert_eq!(u.target.as_deref(), Some("swf_rain"));
    assert!(u.found_name);
    assert_eq!(u.show, Some(1));
    let u = update_swf(&state, &names, false);
    assert!(u.found_name);
    assert_eq!(u.show, None);
    let u = update_swf(&state, &vec![s("swf_snow")], true);
    assert!(!u.found_name);
    assert_eq!(u.show, None);
    state.current_line = 1;
    let u = update_swf(&state, &names, true);
    assert!(u.target.is_none() && u.show.is_none() && !u.found_name);
}

#[test]
fn game_entities_by_name() {
    for name in ["textbox", "namebox", "sidebox", "spritebox", "click_area", "choice_container",
        "svgload", "background_room", "swf_rain", "choice_0"] {
        assert!(is_game_entity_name(name), "{}", name);
    }
    for name in ["menu", "choice", "swf", "Textbox"] {
        assert!(!is_game_entity_name(name), "{}", name);
    }
}

#[test]
fn portrait_paths_drop_assets_prefix() {
    assert_eq!(portrait_path("assets/characters/ling"), "characters/ling/default.png");
    assert_eq!(portrait_path("assets/assets/a\\b"), "a/b/default.png");
    assert_eq!(portrait_path("chars/x"), "chars/x/default.png");
}

#[test]
fn variables_are_substituted() {
    let mut config = MainConfig::default();
    config.title = s("雨夜");
    config.assets.backgrounds.insert(s("room"), s("bg/room.png"));
    config.assets.audio.bgm.insert(s("main"), s("bgm/main.ogg"));
    config.assets.audio.sfx.insert(s("click"), s("sfx/click.ogg"));
    config.assets.characters.insert(s("ling"), s("characters/ling"));
    let text = "$title|$backgrounds.room|$audio.bgm.main|$audio.sfx.click|$characters.ling|$other";
    assert_eq!(
        substitute_variables(text, &config),
        "雨夜|bg/room.png|bgm/main.ogg|sfx/click.ogg|characters/ling|$other"
    );
}

#[test]
fn typewriter_tick_counts_bytes() {
    // "你" is three bytes long, so the text takes three ticks
    let mut t = TypewriterText { full_text: s("你"), current_length: 0 };
    assert_eq!(t.tick().as_deref(), Some("你"));
    assert_eq!(t.tick().as_deref(), Some("你"));
    assert_eq!(t.tick().as_deref(), Some("你"));
    assert_eq!(t.tick(), None);
    assert_eq!(t.current_length, 3);
}

#[test]
fn typewriter_current_text() {
    let t = Typewriter { full_text: s("abc"), current_index: 2, is_finished: false };
    assert_eq!(t.get_current_text(), "ab");
    let t = Typewriter { full_text: s("你好"), current_index: 6, is_finished: false };
    assert_eq!(t.get_current_text(), "你好");
}

#[test]
fn portrait_paths_of_each_character() {
    let mut config = MainConfig::default();
    config.assets.characters.insert(s("ling"), s("assets/characters/ling"));
    config.assets.characters.insert(s("mei"), s("chars\\mei"));
    assert_eq!(
        portrait_paths(&config),
        vec![
            (s("ling"), s("characters/ling/default.png")),
            (s("mei"), s("chars/mei/default.png")),
        ]
    );
    assert!(portrait_paths(&MainConfig::default()).is_empty());
}

#[test]
fn asset_tables_become_named_sprites() {
    let mut config = MainConfig::default();
    config.assets.backgrounds.insert(s("room"), s("bg/room.png"));
    config.assets.backgrounds.insert(s("hall"), s("bg/hall.png"));
    assert_eq!(
        named_entities("background_", &config.assets.backgrounds),
        vec![(s("background_room"), s("bg/room.png")), (s("background_hall"), s("bg/hall.png"))]
    );
    assert!(named_entities("swf_", &config.assets.swf).is_empty());
}

#[test]
fn going_back_undoes_an_advance() {
    let (mut state, _) = setup_game_state(sample_lines());
    let advance = InputFrame { escape: false, digit_jumps: vec![], back: false, advance: true };
    handle_input(&mut state, &advance);
    assert_eq!(state.current_line, 1);
    assert!(keyboard_system(&mut state, true));
    assert_eq!(state.current_line, 0);

    let (mut state, _) = setup_game_state(sample_lines());
    handle_input(&mut state, &advance);
    let back = InputFrame { escape: false, digit_jumps: vec![], back: true, advance: false };
    let effects = handle_input(&mut state, &back);
    assert_eq!(effects.sounds, 1);
    assert_eq!(state.current_line, 0);
    assert!(state.jump_label.is_none());
}

#[test]
fn left_arrow_alone_steps_back_one_line() {
    let (mut state, _) = setup_game_state(sample_lines());
    state.current_line = 3;
    state.can_go_back = true;
    let none = InputFrame { escape: false, digit_jumps: vec![], back: false, advance: false };
    let effects = handle_input(&mut state, &none);
    assert_eq!(effects.sounds, 0);
    assert_eq!(state.current_line, 3);
    assert!(keyboard_system(&mut state, true));
    assert_eq!(state.current_line, 2);
}
