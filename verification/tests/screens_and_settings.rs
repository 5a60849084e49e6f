use raven::config::MainConfig;
use raven::menu::{cleanup_clears_camera, game_entry_clears_camera, pressed_action, MenuAction, MenuButtons};
use raven::style::{
    active_queries_changed, classify_condition, condition_parts, force_style_update,
    merge_matched_styles, on_state_changed, plan_style_update, refresh_active_queries, CompareOp, ConditionPart,
    StyleUpdateReason, StyleUpdateTrigger,
};
use raven::toolbar::{button_pressed, toolbar_event, ToolbarButton, ToolbarEvent};
use raven::typewriter::TypewriterText;
use raven::url::UrlButton;
use raven::{AppState, GameScene};

fn s(x: &str) -> String {
    x.to_string()
}

fn no_buttons() -> MenuButtons {
    MenuButtons {
        start_game: false,
        settings: false,
        exit_game: false,
        about: false,
        back: false,
        help: false,
        load: false,
        url: None,
    }
}

#[test]
fn menu_buttons_lead_to_screens() {
    let mut b = no_buttons();
    assert!(matches!(pressed_action(&b), MenuAction::Nothing));
    b.url = Some(s("https://example.org"));
    assert!(matches!(pressed_action(&b), MenuAction::OpenUrl { url } if url == "https://example.org"));
    b.exit_game = true;
    assert!(matches!(pressed_action(&b), MenuAction::Exit));
    b.load = true;
    assert!(matches!(pressed_action(&b), MenuAction::GoTo { scene: GameScene::LoadButton }));
    b.help = true;
    assert!(matches!(pressed_action(&b), MenuAction::GoTo { scene: GameScene::Help }));
    b.back = true;
    assert!(matches!(pressed_action(&b), MenuAction::GoTo { scene: GameScene::Menu }));
    b.about = true;
    assert!(matches!(pressed_action(&b), MenuAction::GoTo { scene: GameScene::About }));
    b.settings = true;
    assert!(matches!(pressed_action(&b), MenuAction::GoTo { scene: GameScene::Settings }));
    b.start_game = true;
    assert!(matches!(pressed_action(&b), MenuAction::GoTo { scene: GameScene::Game }));
}

#[test]
fn menu_camera_rules() {
    assert!(cleanup_clears_camera(GameScene::Game));
    assert!(!cleanup_clears_camera(GameScene::Settings));
    assert!(game_entry_clears_camera(GameScene::Menu));
    assert!(!game_entry_clears_camera(GameScene::GameSettings));
    let state: AppState = AppState::Menu;
    assert_eq!(state, GameScene::Menu);
}

#[test]
fn toolbar_events() {
    assert_eq!(toolbar_event(ToolbarButton::Settings), ToolbarEvent::ToggleMenu);
    assert_eq!(toolbar_event(ToolbarButton::Rollback), ToolbarEvent::Rollback);
    assert_eq!(toolbar_event(ToolbarButton::Auto), ToolbarEvent::ToggleAutoPlay);
    for b in [ToolbarButton::History, ToolbarButton::Skip, ToolbarButton::Save, ToolbarButton::Load] {
        assert_eq!(toolbar_event(b), ToolbarEvent::NoEvent);
    }
    let buttons = vec![(false, ToolbarButton::Save), (true, ToolbarButton::Auto)];
    assert!(button_pressed(&buttons, ToolbarButton::Auto));
    assert!(!button_pressed(&buttons, ToolbarButton::Save));
    assert!(!button_pressed(&vec![], ToolbarButton::Save));
}

#[test]
fn url_button_keeps_its_link() {
    assert_eq!(UrlButton::new(s("https://a.b")).url, "https://a.b");
}

#[test]
fn default_config() {
    let c = MainConfig::default();
    assert_eq!(c.title, "Raven Engine");
    assert_eq!(c.settings.initial_scene, "intro");
    assert_eq!(c.settings.text_speed, 50);
    assert_eq!(c.settings.resolution, [1200, 660]);
    assert_eq!(c.assets.audio.click_sound, "typing2.ogg");
    assert_eq!(c.assets.audio.backclick_sound, "button.ogg");
    assert_eq!(c.global_variables.player_name, "主角");
    assert!(c.is_resizable());
    assert!(c.is_maximizable());
    assert!(c.get_character_path("ling").is_none());
}

#[test]
fn config_lookups() {
    let mut c = MainConfig::default();
    c.assets.characters.insert(s("ling"), s("assets/characters/ling"));
    c.assets.backgrounds.insert(s("room"), s("bg/room.png"));
    c.settings.resizable = false;
    assert_eq!(c.get_character_path("ling").map(|p| p.as_str()), Some("assets/characters/ling"));
    assert_eq!(c.get_background_path("room").map(|p| p.as_str()), Some("bg/room.png"));
    assert!(c.get_background_path("hall").is_none());
    assert!(!c.is_resizable());
}

#[test]
fn typewriter_steps_by_bytes() {
    let mut t = TypewriterText::new(s("a你"), 30);
    assert_eq!(t.speed_ms, 30);
    assert!(!t.is_finished());
    let step = t.step();
    assert_eq!(step.shown, Some('a'));
    assert_eq!(step.text.as_deref(), Some("a"));
    assert!(!step.finished);
    let step = t.step();
    assert_eq!(step.shown, Some('你'));
    assert_eq!(step.text.as_deref(), Some("a你"));
    // "a你" is four bytes long: two more steps show no new character
    let step = t.step();
    assert_eq!(step.shown, None);
    assert!(!step.finished);
    let step = t.step();
    assert!(step.finished);
    assert!(t.is_finished());
    assert_eq!(t.get_current_text(), "a你");
}

#[test]
fn typewriter_skip_and_reset() {
    let mut t = TypewriterText::new(s("你好"), 50);
    t.skip_to_end();
    assert!(t.is_finished());
    assert_eq!(t.get_current_text(), "你好");
    t.set_text(s("x"));
    assert!(!t.is_finished());
    assert_eq!(t.get_current_text(), "");
}

#[test]
fn style_updates_in_order_of_reasons() {
    let mut t = StyleUpdateTrigger::new();
    let mut valid = true;
    assert_eq!(plan_style_update(&mut t, false, 0, &mut valid), None);
    let mut invalid = false;
    assert_eq!(plan_style_update(&mut t, false, 0, &mut invalid), Some(StyleUpdateReason::InitialLoad));
    assert!(invalid);
    assert_eq!(plan_style_update(&mut t, false, 3, &mut valid), Some(StyleUpdateReason::NewEntities));
    assert_eq!(t.last_frame_entity_count, 3);
    force_style_update(&mut t);
    assert_eq!(plan_style_update(&mut t, false, 3, &mut valid), Some(StyleUpdateReason::ForceUpdate));
    assert!(!t.force_update);
    on_state_changed(&mut t);
    assert!(t.force_update);
    assert_eq!(plan_style_update(&mut t, true, 4, &mut valid), Some(StyleUpdateReason::WindowChanged));
    assert!(!t.force_update);
    assert_eq!(t.last_frame_entity_count, 4);
    assert_eq!(plan_style_update(&mut t, false, 4, &mut valid), None);
    assert!(valid);
}

#[test]
fn active_queries_are_refreshed_when_they_change() {
    let mut active = vec![s("small")];
    assert!(!refresh_active_queries(&mut active, vec![s("small")]));
    assert!(refresh_active_queries(&mut active, vec![s("wide"), s("tall")]));
    assert_eq!(active, vec![s("wide"), s("tall")]);
}

#[test]
fn active_query_changes() {
    assert!(!active_queries_changed(&vec![s("a")], &vec![s("a")]));
    assert!(active_queries_changed(&vec![s("a")], &vec![s("b")]));
    assert!(active_queries_changed(&vec![s("a")], &vec![]));
}

#[test]
fn condition_parts_and_comparisons() {
    assert_eq!(condition_parts(" width >= 800 and height<600 "), vec![s("width >= 800"), s("height<600")]);
    match classify_condition("width >= 800") {
        ConditionPart::Compare { op, left, right } => {
            assert_eq!(op, CompareOp::Ge);
            assert_eq!((left.as_str(), right.as_str()), ("width", "800"));
        }
        other => panic!("unexpected {:?}", other),
    }
    assert!(matches!(classify_condition("height<600"), ConditionPart::Compare { op: CompareOp::Lt, .. }));
    assert!(matches!(classify_condition("a > b"), ConditionPart::Compare { op: CompareOp::Gt, .. }));
    assert!(matches!(classify_condition("a <= b"), ConditionPart::Compare { op: CompareOp::Le, .. }));
    assert!(matches!(classify_condition("a == b"), ConditionPart::Compare { op: CompareOp::Eq, .. }));
    assert!(matches!(classify_condition("a >= b >= c"), ConditionPart::Invalid));
    assert!(matches!(classify_condition("width"), ConditionPart::Invalid));
}

#[test]
fn later_queries_override_earlier_styles() {
    let queries = vec![vec![s("title"), s("box")], vec![s("box")]];
    let (map, applied) = merge_matched_styles(&queries);
    assert_eq!(map.get("title"), Some(&(0, 0)));
    assert_eq!(map.get("box"), Some(&(1, 0)));
    assert_eq!(map.len(), 2);
    assert_eq!(applied, vec![s("title"), s("box"), s("box")]);
}
