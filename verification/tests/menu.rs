use artificial_will::menu::display_preferences::DisplayPreferences;
use artificial_will::menu::game_ui::{
    build_buttons, button_at, move_selection, panel_height, FULLSCREEN, GAME_OVER_MAIN_MENU,
    LEVEL_BACK, LEVEL_ONE, LEVEL_TWO, MAIN_MENU, PAUSE_LEVELS, PAUSE_QUIT, PAUSE_SETTINGS, QUIT, RESOLUTION_BASE, RESUME,
    SCREEN_HEIGHT, SCREEN_WIDTH, SETTINGS_BACK, START, START_SETTINGS,
};
use artificial_will::menu::level::Level;
use artificial_will::menu::menu_runtime::{
    publish_ui, replace_session, shutdown, stop_session, title_for, Extension, MenuDraw,
    MenuEffect, MenuRuntime,
};
use artificial_will::menu::menu_state::MenuState;
use artificial_will::menu::resolution_options::{normalize_resolutions, MAX_RESOLUTIONS};
use artificial_will::menu::screen::Screen;
use artificial_will::menu::session_request::SessionRequest;
use artificial_will::draw::DrawRect;
use artificial_will::messages::PlayerDefeated;

#[test]
fn preferences_round_trip() {
    let preferences = DisplayPreferences {
        width: 1920,
        height: 1080,
        fullscreen: true,
    };
    assert_eq!(
        DisplayPreferences::decode(&preferences.encode()),
        Some(preferences)
    );
}

#[test]
fn default_is_the_safe_windowed_fallback() {
    assert_eq!(
        DisplayPreferences::default(),
        DisplayPreferences {
            width: 800,
            height: 600,
            fullscreen: false,
        }
    );
}

#[test]
fn malformed_or_unsupported_preferences_are_rejected() {
    assert_eq!(DisplayPreferences::decode(&[]), None);

    let mut unsupported = DisplayPreferences::default().encode();
    unsupported[0] = 2;
    assert_eq!(DisplayPreferences::decode(&unsupported), None);

    let mut invalid_fullscreen = DisplayPreferences::default().encode();
    invalid_fullscreen[9] = 2;
    assert_eq!(DisplayPreferences::decode(&invalid_fullscreen), None);

    let mut zero_width = DisplayPreferences::default().encode();
    zero_width[1..5].copy_from_slice(&0_u32.to_le_bytes());
    assert_eq!(DisplayPreferences::decode(&zero_width), None);
}

#[test]
fn preference_records_have_a_fixed_layout() {
    let bytes = DisplayPreferences {
        width: 0x0102_0304,
        height: 600,
        fullscreen: true,
    }
    .encode();
    assert_eq!(bytes, [1, 4, 3, 2, 1, 0x58, 2, 0, 0, 1]);
    assert_eq!(DisplayPreferences::decode(&bytes[..9]), None);
    let mut long = bytes.to_vec();
    long.push(0);
    assert_eq!(DisplayPreferences::decode(&long), None);
    let mut zero_height = DisplayPreferences::default().encode();
    zero_height[5..9].copy_from_slice(&0_u32.to_le_bytes());
    assert_eq!(DisplayPreferences::decode(&zero_height), None);
}

#[test]
fn every_menu_screen_builds_centered_game_buttons() {
    let preferences = DisplayPreferences::default();
    let resolutions = [(800, 600), (1920, 1080)];
    for (screen, expected) in [
        (Screen::Start, 3),
        (Screen::LevelSelection, 2),
        (Screen::Pause, 5),
        (Screen::Settings, 4),
    ] {
        let buttons = build_buttons(screen, preferences, &resolutions);
        assert_eq!(buttons.len(), expected);
        assert!(buttons.iter().all(|button| button.x > 0
            && button.y > 0
            && button.x + button.width as i32 <= SCREEN_WIDTH
            && button.y + button.height as i32 <= SCREEN_HEIGHT));
    }
}

#[test]
fn hit_testing_converts_physical_window_pixels_to_logical_space() {
    let buttons = build_buttons(Screen::Start, DisplayPreferences::default(), &[(800, 600)]);
    let first = &buttons[0];
    let logical_x = first.x as f32 + 5.0;
    let logical_y = first.y as f32 + 5.0;
    let window = (1600u32, 1200u32);
    let to_logical = |x: f32, y: f32| {
        (
            (x * SCREEN_WIDTH as f32 / window.0 as f32).floor() as i32,
            (y * SCREEN_HEIGHT as f32 / window.1 as f32).floor() as i32,
        )
    };
    let (x, y) = to_logical(logical_x * 2.0, logical_y * 2.0);
    assert_eq!(button_at(&buttons, x, y), Some(0));
    let (x, y) = to_logical(0.0, 0.0);
    assert_eq!(button_at(&buttons, x, y), None);
}

#[test]
fn keyboard_selection_wraps_in_both_directions() {
    assert_eq!(move_selection(0, 3, -1), 2);
    assert_eq!(move_selection(2, 3, 1), 0);
    assert_eq!(move_selection(0, 0, 1), 0);
}

#[test]
fn buttons_carry_their_ids_and_labels_in_menu_order() {
    let preferences = DisplayPreferences::default();
    let resolutions = [(800, 600), (1920, 1080)];
    let ids = |screen| {
        build_buttons(screen, preferences, &resolutions)
            .iter()
            .map(|button| button.id)
            .collect::<Vec<_>>()
    };
    assert_eq!(ids(Screen::Start), vec![START, START_SETTINGS, QUIT]);
    assert_eq!(ids(Screen::LevelSelection), vec![LEVEL_ONE, LEVEL_TWO]);
    assert_eq!(ids(Screen::GameOver), vec![GAME_OVER_MAIN_MENU]);
    assert_eq!(
        ids(Screen::Pause),
        vec![RESUME, PAUSE_SETTINGS, PAUSE_LEVELS, MAIN_MENU, PAUSE_QUIT]
    );
    assert_eq!(
        ids(Screen::Settings),
        vec![FULLSCREEN, RESOLUTION_BASE, RESOLUTION_BASE + 1, SETTINGS_BACK]
    );
    assert!(ids(Screen::Gameplay).is_empty());
    let settings = build_buttons(Screen::Settings, preferences, &resolutions);
    assert_eq!(settings[0].label, "Fullscreen: Off");
    assert_eq!(settings[1].label, "800 x 600  <");
    assert_eq!(settings[2].label, "1920 x 1080");
    assert_eq!(settings[3].label, "Back");
    let level = build_buttons(Screen::LevelSelection, preferences, &resolutions);
    assert_eq!(level[0].label, "Level One");
    assert_eq!(level[1].label, "Level Two");
    let over = build_buttons(Screen::GameOver, preferences, &resolutions);
    assert_eq!(over[0].label, "Press Enter to Main Menu");
}

#[test]
fn buttons_stack_inside_a_centered_panel() {
    assert_eq!(panel_height(3), 104 + 3 * 44 + 2 * 10 + 28);
    let buttons = build_buttons(Screen::Start, DisplayPreferences::default(), &[(800, 600)]);
    let height = panel_height(3) as i32;
    let top = (SCREEN_HEIGHT - height) / 2;
    assert_eq!(buttons[0].x, (SCREEN_WIDTH - 420) / 2 + 28);
    assert_eq!(buttons[0].y, top + 104);
    assert_eq!(buttons[1].y, buttons[0].y + 54);
    assert_eq!(buttons[0].width, 420 - 56);
    assert_eq!(buttons[0].height, 44);
    assert_eq!(button_at(&buttons, buttons[1].x, buttons[1].y), Some(1));
    assert_eq!(
        button_at(&buttons, buttons[1].x, buttons[0].y + 44 + 5),
        None
    );
}

#[test]
fn starts_without_a_gameplay_session() {
    let state = MenuState::default();
    assert_eq!(state.screen(), Screen::Start);
    assert_eq!(state.active_level(), None);
}

#[test]
fn selecting_level_one_replaces_the_session_and_enters_gameplay() {
    let mut state = MenuState::default();
    state.open_level_selection();
    assert_eq!(
        state.select_level(Level::One),
        SessionRequest::Replace(Level::One)
    );
    assert_eq!(state.screen(), Screen::Gameplay);
    assert_eq!(state.active_level(), Some(Level::One));
    assert_eq!(Level::One.extension_name(), "level_one");
}

#[test]
fn cancelling_level_selection_returns_to_its_session_context() {
    let mut state = MenuState::default();
    state.open_level_selection();
    assert!(state.cancel_level_selection());
    assert_eq!(state.screen(), Screen::Start);

    state.select_level(Level::One);
    state.pause();
    state.open_level_selection();
    assert!(state.cancel_level_selection());
    assert_eq!(state.screen(), Screen::Pause);
}

#[test]
fn escape_style_pause_and_resume_only_apply_to_live_gameplay() {
    let mut state = MenuState::default();
    assert!(!state.pause());
    state.select_level(Level::One);
    assert!(state.pause());
    assert_eq!(state.screen(), Screen::Pause);
    assert!(!state.pause());
    assert!(state.resume());
    assert_eq!(state.screen(), Screen::Gameplay);
}

#[test]
fn settings_return_to_the_screen_that_opened_them() {
    let mut state = MenuState::default();
    assert!(state.open_settings());
    assert!(state.close_settings());
    assert_eq!(state.screen(), Screen::Start);

    state.select_level(Level::One);
    state.pause();
    assert!(state.open_settings());
    assert!(state.close_settings());
    assert_eq!(state.screen(), Screen::Pause);
}

#[test]
fn returning_home_stops_only_an_active_session() {
    let mut state = MenuState::default();
    assert_eq!(state.return_to_start(), None);
    state.select_level(Level::One);
    assert_eq!(state.return_to_start(), Some(SessionRequest::Stop));
    assert_eq!(state.screen(), Screen::Start);
    assert_eq!(state.active_level(), None);
}

#[test]
fn restarting_replays_only_an_active_level() {
    let mut state = MenuState::default();
    assert_eq!(state.restart_active_level(), None);
    state.select_level(Level::One);
    state.pause();
    assert_eq!(
        state.restart_active_level(),
        Some(SessionRequest::Replace(Level::One))
    );
    assert_eq!(state.screen(), Screen::Gameplay);
    assert!(!state.close_settings());
    assert!(!state.cancel_level_selection());
}

#[test]
fn empty_or_invalid_modes_fall_back_safely() {
    assert_eq!(
        normalize_resolutions(vec![(0, 600), (800, 0)]),
        vec![(800, 600)]
    );
}

#[test]
fn modes_are_sorted_and_deduplicated() {
    assert_eq!(
        normalize_resolutions(vec![(1920, 1080), (800, 600), (1920, 1080)]),
        vec![(800, 600), (1920, 1080)]
    );
}

#[test]
fn long_mode_lists_keep_a_bounded_range_with_both_extremes() {
    let options = normalize_resolutions(vec![
        (640, 480),
        (800, 600),
        (1024, 768),
        (1280, 720),
        (1280, 800),
        (1366, 768),
        (1600, 900),
        (1920, 1080),
    ]);
    assert_eq!(options.len(), MAX_RESOLUTIONS);
    assert_eq!(options.first(), Some(&(640, 480)));
    assert_eq!(options.last(), Some(&(1920, 1080)));
}

#[test]
fn long_mode_lists_sample_evenly() {
    let options = normalize_resolutions(vec![
        (640, 480),
        (800, 600),
        (1024, 768),
        (1280, 720),
        (1280, 800),
        (1366, 768),
        (1600, 900),
        (1920, 1080),
    ]);
    assert_eq!(
        options,
        vec![
            (640, 480),
            (800, 600),
            (1280, 720),
            (1280, 800),
            (1600, 900),
            (1920, 1080)
        ]
    );
    assert_eq!(normalize_resolutions(Vec::new()), vec![(800, 600)]);
}

#[test]
fn session_changes_unload_the_character_before_the_level() {
    assert_eq!(
        replace_session(None, Level::One),
        vec![
            MenuEffect::SetPaused(true),
            MenuEffect::ResetWorld,
            MenuEffect::Load(Extension::Level(Level::One)),
            MenuEffect::Load(Extension::Will),
            MenuEffect::SetPaused(false),
        ]
    );
    assert_eq!(
        replace_session(Some(Level::One), Level::One),
        vec![
            MenuEffect::SetPaused(true),
            MenuEffect::Unload(Extension::Will),
            MenuEffect::Unload(Extension::Level(Level::One)),
            MenuEffect::ResetWorld,
            MenuEffect::Load(Extension::Level(Level::One)),
            MenuEffect::Load(Extension::Will),
            MenuEffect::SetPaused(false),
        ]
    );
    assert_eq!(
        stop_session(Level::One),
        vec![
            MenuEffect::SetPaused(true),
            MenuEffect::Unload(Extension::Will),
            MenuEffect::Unload(Extension::Level(Level::One)),
            MenuEffect::ResetWorld,
        ]
    );
    assert_eq!(Extension::Will.name(), "will");
    assert_eq!(Extension::Level(Level::One).name(), "level_one");
}

#[test]
fn saved_preferences_are_restored_only_for_offered_modes() {
    let saved = DisplayPreferences {
        width: 1920,
        height: 1080,
        fullscreen: true,
    };
    let bytes = saved.encode();
    let (runtime, effects) = MenuRuntime::new(vec![(800, 600), (1920, 1080)], Some(&bytes));
    assert_eq!(runtime.preferences(), saved);
    assert_eq!(effects, vec![MenuEffect::ApplyDisplay(saved)]);
    assert_eq!(runtime.menu().screen(), Screen::Start);
    assert_eq!(runtime.selected(), 0);

    let (runtime, _) = MenuRuntime::new(vec![(800, 600)], Some(&bytes));
    assert_eq!(runtime.preferences(), DisplayPreferences::default());
    let (runtime, _) = MenuRuntime::new(vec![(800, 600)], Some(&[9, 9]));
    assert_eq!(runtime.preferences(), DisplayPreferences::default());
    let (runtime, _) = MenuRuntime::new(vec![(800, 600)], None);
    assert_eq!(runtime.preferences(), DisplayPreferences::default());
}

#[test]
fn keyboard_drives_the_menu_into_and_out_of_a_session() {
    let (mut runtime, _) = MenuRuntime::new(vec![(800, 600), (1920, 1080)], None);
    assert!(runtime.handle_key("Return").is_empty());
    assert_eq!(runtime.menu().screen(), Screen::LevelSelection);
    assert_eq!(
        runtime.handle_key("Space"),
        vec![
            MenuEffect::SetPaused(true),
            MenuEffect::ResetWorld,
            MenuEffect::Load(Extension::Level(Level::One)),
            MenuEffect::Load(Extension::Will),
            MenuEffect::SetPaused(false),
        ]
    );
    assert_eq!(runtime.menu().screen(), Screen::Gameplay);
    assert_eq!(runtime.handle_escape(), vec![MenuEffect::SetPaused(true)]);
    assert_eq!(runtime.menu().screen(), Screen::Pause);
    assert!(runtime.handle_key("Down").is_empty());
    assert!(runtime.handle_key("S").is_empty());
    assert!(runtime.handle_key("Right").is_empty());
    assert_eq!(runtime.selected(), 3);
    assert_eq!(runtime.handle_key("Enter"), stop_session(Level::One));
    assert_eq!(runtime.menu().screen(), Screen::Start);
    assert_eq!(runtime.selected(), 0);
    assert!(runtime.handle_key("Up").is_empty());
    assert_eq!(runtime.selected(), 2);
    assert_eq!(runtime.handle_key("Return"), vec![MenuEffect::RequestExit]);
    assert!(runtime.handle_key("Q").is_empty());
    assert_eq!(runtime.selected(), 2);
}

#[test]
fn escape_resumes_and_backs_out_of_nested_screens() {
    let (mut runtime, _) = MenuRuntime::new(vec![(800, 600)], None);
    assert!(runtime.handle_escape().is_empty());
    runtime.activate_button(START_SETTINGS);
    assert_eq!(runtime.menu().screen(), Screen::Settings);
    assert!(runtime.handle_key("Escape").is_empty());
    assert_eq!(runtime.menu().screen(), Screen::Start);
    runtime.activate_button(START);
    assert_eq!(runtime.handle_escape(), Vec::new());
    assert_eq!(runtime.menu().screen(), Screen::Start);
    runtime.activate_button(START);
    runtime.activate_button(LEVEL_ONE);
    runtime.handle_escape();
    assert_eq!(runtime.handle_escape(), vec![MenuEffect::SetPaused(false)]);
    assert_eq!(runtime.menu().screen(), Screen::Gameplay);
    assert_eq!(shutdown(&runtime), stop_session(Level::One));
}

#[test]
fn settings_change_and_persist_the_display() {
    let (mut runtime, _) = MenuRuntime::new(vec![(800, 600), (1920, 1080)], None);
    runtime.activate_button(START_SETTINGS);
    let chosen = DisplayPreferences {
        width: 1920,
        height: 1080,
        fullscreen: false,
    };
    assert_eq!(
        runtime.activate_button(RESOLUTION_BASE + 1),
        vec![MenuEffect::ApplyDisplay(chosen), MenuEffect::SaveDisplay(chosen)]
    );
    let fullscreen = DisplayPreferences {
        fullscreen: true,
        ..chosen
    };
    assert_eq!(
        runtime.activate_button(FULLSCREEN),
        vec![
            MenuEffect::ApplyDisplay(fullscreen),
            MenuEffect::SaveDisplay(fullscreen)
        ]
    );
    assert!(runtime.activate_button(RESOLUTION_BASE + 7).is_empty());
    assert_eq!(runtime.preferences(), fullscreen);
    runtime.activate_button(SETTINGS_BACK);
    assert_eq!(runtime.menu().screen(), Screen::Start);
}

#[test]
fn pointer_selects_and_activates_only_with_the_primary_button() {
    let (mut runtime, _) = MenuRuntime::new(vec![(800, 600)], None);
    let buttons = runtime.buttons();
    let (x, y) = (buttons[2].x + 3, buttons[2].y + 3);
    runtime.handle_pointer_move(x, y);
    assert_eq!(runtime.selected(), 2);
    runtime.handle_pointer_move(0, 0);
    assert_eq!(runtime.selected(), 2);
    assert!(runtime.handle_pointer_down(3, x, y).is_empty());
    assert_eq!(runtime.handle_pointer_down(1, x, y), vec![MenuEffect::RequestExit]);
    runtime.set_window_size(1600, 1200);
    assert_eq!(runtime.window_size(), (1600, 1200));
}

#[test]
fn each_screen_has_its_title() {
    assert_eq!(
        title_for(Screen::Start),
        ("ARTIFICIAL WILL", "A machine with a will of its own")
    );
    assert_eq!(
        title_for(Screen::LevelSelection),
        ("SELECT LEVEL", "Choose where Will wakes")
    );
    assert_eq!(
        title_for(Screen::Pause),
        ("SYSTEM PAUSED", "Escape resumes the simulation")
    );
    assert_eq!(
        title_for(Screen::Settings),
        ("DISPLAY SETTINGS", "Changes apply immediately")
    );
    assert_eq!(title_for(Screen::GameOver), ("GAME OVER", "Will has no lives left"));
    assert_eq!(title_for(Screen::Gameplay), ("", ""));
}

#[test]
fn gameplay_draws_only_an_invisible_marker_and_menus_draw_panels() {
    let (mut runtime, _) = MenuRuntime::new(vec![(800, 600)], None);
    let start = publish_ui(&runtime);
    assert_eq!(start.len(), 2 + 2 + 3 * 2 + 1);
    runtime.activate_button(START);
    runtime.activate_button(LEVEL_ONE);
    assert_eq!(publish_ui(&runtime).len(), 1);
}

#[test]
fn level_two_is_started_from_level_selection() {
    let (mut runtime, _) = MenuRuntime::new(vec![(800, 600)], None);
    runtime.activate_button(START);
    assert_eq!(
        runtime.activate_button(LEVEL_TWO),
        vec![
            MenuEffect::SetPaused(true),
            MenuEffect::ResetWorld,
            MenuEffect::Load(Extension::Level(Level::Two)),
            MenuEffect::Load(Extension::Will),
            MenuEffect::SetPaused(false),
        ]
    );
    assert_eq!(runtime.menu().screen(), Screen::Gameplay);
    assert_eq!(runtime.menu().active_level(), Some(Level::Two));
    assert_eq!(Level::Two.extension_name(), "level_two");
    assert_eq!(Extension::Level(Level::Two).name(), "level_two");

    runtime.handle_escape();
    runtime.activate_button(PAUSE_LEVELS);
    assert_eq!(
        runtime.activate_button(LEVEL_ONE),
        replace_session(Some(Level::Two), Level::One)
    );
    assert_eq!(runtime.menu().active_level(), Some(Level::One));
}

#[test]
fn keyboard_reaches_level_two_as_the_second_level_button() {
    let (mut runtime, _) = MenuRuntime::new(vec![(800, 600)], None);
    runtime.handle_key("Return");
    assert!(runtime.handle_key("Down").is_empty());
    assert_eq!(runtime.handle_key("Return"), replace_session(None, Level::Two));
    assert_eq!(runtime.menu().active_level(), Some(Level::Two));
}

#[test]
fn the_back_id_still_leaves_level_selection() {
    let (mut runtime, _) = MenuRuntime::new(vec![(800, 600)], None);
    runtime.activate_button(START);
    assert!(runtime.activate_button(LEVEL_BACK).is_empty());
    assert_eq!(runtime.menu().screen(), Screen::Start);
}

#[test]
fn gameplay_placeholder_is_one_transparent_pixel_at_the_origin() {
    let (mut runtime, _) = MenuRuntime::new(vec![(800, 600)], None);
    runtime.activate_button(START);
    runtime.activate_button(LEVEL_ONE);
    let drawn = publish_ui(&runtime);
    assert_eq!(drawn.len(), 1);
    match &drawn[0] {
        MenuDraw::Rect(DrawRect {
            x,
            y,
            w,
            h,
            filled,
            color: (_, _, _, alpha),
            screen_space,
            ..
        }) => {
            assert_eq!((*x, *y, *w, *h), (0, 0, 1, 1));
            assert!(*filled);
            assert_eq!(*alpha, 0);
            assert!(*screen_space);
        }
        other => panic!("unexpected command {other:?}"),
    }
}

#[test]
fn losing_the_last_life_shows_game_over_until_enter_returns_home() {
    let (mut runtime, _) = MenuRuntime::new(vec![(800, 600)], None);
    assert!(runtime
        .on_game_message(PlayerDefeated::TOPIC, &PlayerDefeated.encode())
        .is_empty());
    assert_eq!(runtime.menu().screen(), Screen::Start);
    runtime.activate_button(START);
    runtime.activate_button(LEVEL_ONE);
    assert!(runtime.on_game_message("game/other", &[]).is_empty());
    assert!(runtime.on_game_message(PlayerDefeated::TOPIC, &[1]).is_empty());
    assert_eq!(runtime.menu().screen(), Screen::Gameplay);
    assert_eq!(
        runtime.on_game_message(PlayerDefeated::TOPIC, &PlayerDefeated.encode()),
        vec![MenuEffect::SetPaused(true)]
    );
    assert_eq!(runtime.menu().screen(), Screen::GameOver);
    assert_eq!(title_for(runtime.menu().screen()).0, "GAME OVER");
    assert!(runtime.handle_escape().is_empty());
    assert_eq!(runtime.menu().screen(), Screen::GameOver);
    assert_eq!(runtime.handle_key("Return"), stop_session(Level::One));
    assert_eq!(runtime.menu().screen(), Screen::Start);
    assert_eq!(runtime.menu().active_level(), None);
}

#[test]
fn defeat_while_paused_also_ends_on_game_over() {
    let (mut runtime, _) = MenuRuntime::new(vec![(800, 600)], None);
    runtime.activate_button(START);
    runtime.activate_button(LEVEL_TWO);
    runtime.handle_escape();
    assert_eq!(runtime.player_defeated(), vec![MenuEffect::SetPaused(true)]);
    assert_eq!(runtime.menu().screen(), Screen::GameOver);
    assert_eq!(
        runtime.activate_button(GAME_OVER_MAIN_MENU),
        stop_session(Level::Two)
    );
}
