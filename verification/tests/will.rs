use artificial_will::draw::{DrawCommand, Rect};
use artificial_will::float_bits::F32Bits;
use artificial_will::messages::{
    AttackDirection, HitConfirmed, PauseChanged, PlayerDamaged, PlayerStats, RewardGranted,
    SessionReset,
};
use artificial_will::will::combat_state::{
    CombatState, DamageOutcome, ATTACK_HALF_WIDTH_BITS, ATTACK_REACH_BITS,
    DAMAGE_INVULNERABILITY_BITS,
};
use artificial_will::will::controller::{WillAction, WillController, WillFrame};
use artificial_will::will::held_keys::HeldKeys;
use artificial_will::will::hud::commands;
use artificial_will::will::impact::{ImpactFeedback, IMPACT_SECONDS_BITS};
use artificial_will::will::player_state::{
    cardinal_from_velocity, Facing, PlayerMode, PlayerState, ATTACK_SIDE_SPRITE_ID,
    IDLE_DOWN_SPRITE_ID, IDLE_SIDE_SPRITE_ID, WALK_SIDE_SPRITE_ID, WALK_UP_SPRITE_ID,
};

fn f(x: f32) -> F32Bits {
    F32Bits(x.to_bits())
}

fn v(x: F32Bits) -> f32 {
    f32::from_bits(x.0)
}

const ATTACK_REACH: f32 = 56.0;
const ATTACK_HALF_WIDTH: f32 = 24.0;
const DAMAGE_INVULNERABILITY_SECONDS: f32 = 0.8;
const EXPERIENCE: (u8, u8, u8, u8) = (123, 214, 126, 255);

/// A frame of `dt` seconds: the invulnerability timer runs down, never below zero.
fn tick_combat(state: &mut CombatState, dt: f32) {
    let remaining = (v(state.invulnerability_remaining()) - dt.max(0.0)).max(0.0);
    state.set_invulnerability_remaining(f(remaining));
}

/// A frame of `dt` seconds at velocity `(vx, vy)`: a running swing's timer runs down.
fn tick_player(state: &mut PlayerState, dt: f32, vx: f32, vy: f32) -> bool {
    let remaining = v(state.attack_remaining()) - dt.max(0.0);
    state.tick(f(remaining), f(vx), f(vy))
}

fn velocity(held: &HeldKeys) -> (f32, f32) {
    let (x, y) = held.velocity();
    (x as f32, y as f32)
}

#[test]
fn hud_is_a_compact_screen_space_status_strip() {
    let commands = commands(PlayerStats {
        lives: 2,
        experience: 4,
        level: 2,
        coins: 7,
    });

    assert_eq!(commands.len(), 8);
    assert!(commands.iter().any(|command| {
        matches!(
            command,
            DrawCommand::Text { text, .. } if text == "LIVES 2"
        )
    }));
    assert!(commands
        .iter()
        .any(|command| { matches!(command, DrawCommand::Text { text, .. } if text == "LV 2") }));
    assert!(commands
        .iter()
        .any(|command| { matches!(command, DrawCommand::Text { text, .. } if text == "XP 4") }));
    assert!(commands.iter().any(|command| {
        matches!(
            command,
            DrawCommand::Text { text, .. } if text == "COINS 7"
        )
    }));
}

#[test]
fn experience_bar_tracks_progress_inside_the_current_level() {
    let commands = commands(PlayerStats {
        lives: 3,
        experience: 5,
        level: 2,
        coins: 0,
    });
    assert!(commands.iter().any(|command| {
        matches!(
            command,
            DrawCommand::Rectangle {
                bounds: Rect {
                    x: 260,
                    y: 37,
                    width: 38,
                    height: 8,
                },
                color,
                ..
            } if *color == EXPERIENCE
        )
    }));
}

#[test]
fn experience_bar_is_full_at_most_and_empty_on_inconsistent_stats() {
    let width = |stats| match &commands(stats)[6] {
        DrawCommand::Rectangle { bounds, .. } => bounds.width,
        _ => panic!("the bar fill is the seventh command"),
    };
    assert_eq!(
        width(PlayerStats {
            lives: 3,
            experience: 100,
            level: 2,
            coins: 0
        }),
        58
    );
    assert_eq!(
        width(PlayerStats {
            lives: 3,
            experience: 1,
            level: 5,
            coins: 0
        }),
        0
    );
    assert_eq!(
        width(PlayerStats {
            lives: 3,
            experience: 7,
            level: 3,
            coins: 0
        }),
        19
    );
    assert_eq!(
        width(PlayerStats {
            lives: 0,
            experience: u32::MAX,
            level: u32::MAX,
            coins: u32::MAX
        }),
        0
    );
}

#[test]
fn starts_with_three_lives_and_session_scoped_progress() {
    assert_eq!(
        CombatState::default().stats(),
        PlayerStats {
            lives: 3,
            experience: 0,
            level: 1,
            coins: 0,
        }
    );
}

#[test]
fn attacks_use_the_latest_authoritative_position_and_monotonic_sequence() {
    let mut state = CombatState::default();
    state.update_position(f(12.0), f(34.0));
    let first = state.attack(AttackDirection::Left);
    let second = state.attack(AttackDirection::Up);

    assert_eq!(
        (first.sequence, v(first.origin_x), v(first.origin_y)),
        (1, 12.0, 34.0)
    );
    assert_eq!(first.direction, AttackDirection::Left);
    assert_eq!(v(first.reach), ATTACK_REACH);
    assert_eq!(v(first.half_width), ATTACK_HALF_WIDTH);
    assert_eq!(second.sequence, 2);
    assert_eq!(second.direction, AttackDirection::Up);
}

#[test]
fn invalid_transform_snapshots_do_not_poison_attack_origins() {
    let mut state = CombatState::default();
    state.update_position(f(12.0), f(34.0));
    state.update_position(f(f32::NAN), f(f32::INFINITY));
    let attack = state.attack(AttackDirection::Down);
    assert_eq!((v(attack.origin_x), v(attack.origin_y)), (12.0, 34.0));
}

#[test]
fn exposes_the_latest_valid_position_for_world_space_feedback() {
    let mut state = CombatState::default();
    state.update_position(f(12.0), f(34.0));
    assert_eq!(state.position(), (f(12.0), f(34.0)));
}

#[test]
fn damage_has_invulnerability_and_zero_lives_defeats_once() {
    let mut state = CombatState::default();
    assert_eq!(state.damage(1), DamageOutcome::Applied);
    assert_eq!(state.stats().lives, 2);
    assert_eq!(state.damage(1), DamageOutcome::Ignored);

    tick_combat(&mut state, DAMAGE_INVULNERABILITY_SECONDS);
    assert_eq!(state.damage(1), DamageOutcome::Applied);
    tick_combat(&mut state, DAMAGE_INVULNERABILITY_SECONDS);
    assert_eq!(state.damage(1), DamageOutcome::Defeated);
    assert_eq!(state.stats().lives, 0);
    assert_eq!(state.damage(1), DamageOutcome::Ignored);
}

#[test]
fn rewards_grow_coins_and_derive_levels_from_experience() {
    let mut state = CombatState::default();
    state.grant(RewardGranted {
        experience: 2,
        coins: 4,
    });
    assert_eq!(state.stats().level, 1);
    state.grant(RewardGranted {
        experience: 1,
        coins: 2,
    });
    assert_eq!(
        state.stats(),
        PlayerStats {
            lives: 3,
            experience: 3,
            level: 2,
            coins: 6,
        }
    );
}

#[test]
fn rewards_saturate_and_are_ignored_after_defeat() {
    let mut state = CombatState::default();
    state.grant(RewardGranted {
        experience: u32::MAX,
        coins: u32::MAX,
    });
    state.grant(RewardGranted {
        experience: 1,
        coins: 1,
    });
    assert_eq!(state.stats().experience, u32::MAX);
    assert_eq!(state.stats().coins, u32::MAX);

    assert_eq!(state.damage(3), DamageOutcome::Defeated);
    state.grant(RewardGranted {
        experience: 1,
        coins: 1,
    });
    assert_eq!(state.stats().experience, u32::MAX);
    assert_eq!(state.stats().coins, u32::MAX);
}

#[test]
fn empty_damage_is_ignored_and_sequences_wrap() {
    let mut state = CombatState::default();
    assert_eq!(state.damage(0), DamageOutcome::Ignored);
    assert_eq!(state.stats().lives, 3);
    assert_eq!(
        state.invulnerability_remaining(),
        F32Bits(0),
        "an ignored hit grants no protection"
    );
    assert_eq!(state.damage(1), DamageOutcome::Applied);
    assert_eq!(
        state.invulnerability_remaining(),
        F32Bits(DAMAGE_INVULNERABILITY_BITS)
    );
    assert_eq!(v(F32Bits(ATTACK_REACH_BITS)), ATTACK_REACH);
    assert_eq!(v(F32Bits(ATTACK_HALF_WIDTH_BITS)), ATTACK_HALF_WIDTH);
    for _ in 0..3 {
        state.attack(AttackDirection::Down);
    }
    assert_eq!(state.attack(AttackDirection::Down).sequence, 4);
}

#[test]
fn wasd_and_arrow_aliases_drive_at_the_original_speed() {
    for (key, expected) in [
        ("W", (0.0, -160.0)),
        ("Up", (0.0, -160.0)),
        ("S", (0.0, 160.0)),
        ("Down", (0.0, 160.0)),
        ("A", (-160.0, 0.0)),
        ("Left", (-160.0, 0.0)),
        ("D", (160.0, 0.0)),
        ("Right", (160.0, 0.0)),
    ] {
        let mut held = HeldKeys::default();
        held.set(key, true);
        assert_eq!(velocity(&held), expected);
    }
}

#[test]
fn opposing_keys_cancel_and_releasing_one_restores_the_other() {
    let mut held = HeldKeys::default();
    held.set("A", true);
    held.set("Right", true);
    assert_eq!(velocity(&held), (0.0, 0.0));

    held.set("Right", false);
    assert_eq!(velocity(&held), (-160.0, 0.0));
}

#[test]
fn diagonal_movement_is_not_normalized() {
    let mut held = HeldKeys::default();
    held.set("W", true);
    held.set("D", true);
    assert_eq!(velocity(&held), (160.0, -160.0));
}

#[test]
fn unrelated_keys_do_not_change_movement() {
    let mut held = HeldKeys::default();
    held.set("Space", true);
    assert_eq!(velocity(&held), (0.0, 0.0));
}

#[test]
fn starts_idle_facing_down_with_the_original_grid_and_scale() {
    let state = PlayerState::default();
    let presentation = state.presentation();
    assert_eq!(presentation.sprite.sprite_id, IDLE_DOWN_SPRITE_ID);
    assert_eq!(presentation.sprite.frame_count, 5);
    assert_eq!(v(presentation.sprite.frame_duration), 0.125);
    assert_eq!(presentation.frames_per_row, 4);
    assert_eq!((presentation.draw_w, presentation.draw_h), (128, 128));
    assert!(presentation.looping);
    assert!(presentation.advance_while_stopped);
    assert!(!presentation.flip_h);
}

#[test]
fn movement_selects_the_dominant_facing_and_mirrors_only_right() {
    let mut state = PlayerState::default();
    assert!(tick_player(&mut state, 0.016, -160.0, 160.0));
    let left = state.presentation();
    assert_eq!(left.sprite.sprite_id, WALK_SIDE_SPRITE_ID);
    assert!(!left.flip_h);

    assert!(tick_player(&mut state, 0.016, 160.0, 0.0));
    let right = state.presentation();
    assert_eq!(right.sprite.sprite_id, WALK_SIDE_SPRITE_ID);
    assert!(right.flip_h);

    assert!(tick_player(&mut state, 0.016, 0.0, -160.0));
    assert_eq!(state.presentation().sprite.sprite_id, WALK_UP_SPRITE_ID);
}

#[test]
fn attack_is_edge_triggered_one_shot_and_freezes_facing() {
    let mut state = PlayerState::default();
    tick_player(&mut state, 0.016, -160.0, 0.0);
    assert!(state.press_attack());
    assert!(!state.press_attack());

    let attack = state.presentation();
    assert_eq!(attack.sprite.sprite_id, ATTACK_SIDE_SPRITE_ID);
    assert_eq!(attack.sprite.frame_count, 2);
    assert!(!attack.looping);
    assert!(!attack.flip_h);

    assert!(!tick_player(&mut state, 0.249, 160.0, 0.0));
    assert_eq!(state.presentation().sprite.sprite_id, ATTACK_SIDE_SPRITE_ID);
    assert!(tick_player(&mut state, 0.001, 160.0, 0.0));
    let resumed = state.presentation();
    assert_eq!(resumed.sprite.sprite_id, WALK_SIDE_SPRITE_ID);
    assert!(resumed.flip_h);
}

#[test]
fn an_attack_press_during_attack_is_not_buffered() {
    let mut state = PlayerState::default();
    assert!(state.press_attack());
    state.release_attack();
    assert!(!state.press_attack());
    state.release_attack();

    assert!(tick_player(&mut state, 0.25, 0.0, 0.0));
    assert_eq!(state.presentation().sprite.sprite_id, IDLE_DOWN_SPRITE_ID);
}

#[test]
fn attack_direction_uses_the_frozen_cardinal_facing() {
    let mut state = PlayerState::default();
    tick_player(&mut state, 0.016, -160.0, 0.0);
    assert_eq!(state.attack_direction(), AttackDirection::Left);
    state.press_attack();
    tick_player(&mut state, 0.1, 160.0, 0.0);
    assert_eq!(state.attack_direction(), AttackDirection::Left);
}

#[test]
fn damage_state_locks_actions_and_uses_a_frozen_idle_frame_until_recovery() {
    let mut state = PlayerState::default();
    tick_player(&mut state, 0.016, 160.0, 0.0);
    assert!(state.start_damage());
    assert!(!state.start_damage());
    assert!(!state.press_attack());
    assert!(!tick_player(&mut state, 10.0, -160.0, 0.0));

    let damaged = state.presentation();
    assert_eq!(damaged.sprite.sprite_id, IDLE_SIDE_SPRITE_ID);
    assert_eq!(damaged.sprite.frame_count, 1);
    assert!(!damaged.looping);
    assert!(damaged.flip_h);

    assert!(state.recover_from_damage());
    assert_eq!(state.presentation().sprite.sprite_id, IDLE_SIDE_SPRITE_ID);
    assert!(!state.recover_from_damage());
}

#[test]
fn facing_follows_the_dominant_axis_with_horizontal_ties() {
    assert_eq!(cardinal_from_velocity(f(0.0), f(-0.0)), None);
    assert_eq!(cardinal_from_velocity(f(-3.0), f(3.0)), Some(Facing::Left));
    assert_eq!(cardinal_from_velocity(f(3.0), f(-3.0)), Some(Facing::Right));
    assert_eq!(cardinal_from_velocity(f(1.0), f(-2.0)), Some(Facing::Up));
    assert_eq!(cardinal_from_velocity(f(-1.0), f(2.0)), Some(Facing::Down));
    let mut state = PlayerState::default();
    assert!(!tick_player(&mut state, 0.016, 0.0, 0.0));
    assert_eq!(state.mode(), PlayerMode::Idle);
}

fn hit(sequence: u32, x: f32, y: f32) -> HitConfirmed {
    HitConfirmed {
        sequence,
        entity_id: 40,
        x: f(x),
        y: f(y),
    }
}

#[test]
fn confirmed_hit_draws_a_brief_world_space_marker() {
    let mut feedback = ImpactFeedback::default();
    feedback.confirm(hit(1, 120.4, 80.6));
    let marker = feedback.marker.expect("visible marker");
    assert_eq!((v(marker.x), v(marker.y)), (120.4, 80.6));
    assert_eq!(marker.remaining, F32Bits(IMPACT_SECONDS_BITS));

    let remaining = v(marker.remaining) - v(F32Bits(IMPACT_SECONDS_BITS));
    feedback.tick(f(remaining));
    assert_eq!(feedback.marker, None);
}

#[test]
fn duplicate_or_invalid_confirmations_are_ignored() {
    let mut feedback = ImpactFeedback::default();
    feedback.confirm(hit(3, 10.0, 20.0));
    let shown = feedback.marker;
    feedback.confirm(hit(3, 50.0, 60.0));
    feedback.confirm(hit(4, f32::NAN, 60.0));
    assert_eq!(feedback.marker, shown);
    assert_eq!(feedback.last_sequence, Some(3));
}

#[test]
fn a_marker_lasts_while_time_is_left() {
    let mut feedback = ImpactFeedback::default();
    feedback.tick(f(0.0));
    assert_eq!(feedback.marker, None);
    feedback.confirm(hit(5, 1.0, 2.0));
    feedback.tick(f(0.1));
    assert_eq!(feedback.marker.map(|m| v(m.remaining)), Some(0.1));
    feedback.tick(f(f32::EPSILON));
    assert_eq!(feedback.marker, None);
}

fn frame(reacting: bool) -> WillFrame {
    WillFrame {
        reacting,
        knockback: (f(0.0), f(0.0)),
        recovered: false,
        attack_remaining: f(0.0),
        invulnerability_remaining: f(0.0),
    }
}

#[test]
fn pausing_clears_movement_and_reset_restores_active_defaults() {
    let mut will = WillController::default();
    assert!(will.key_down("W", false).is_empty());
    assert_ne!(velocity(&will.held_keys()), (0.0, 0.0));

    will.on_message(
        PauseChanged::TOPIC,
        "menu",
        &PauseChanged { paused: true }.encode(),
    );

    assert!(will.paused());
    assert_eq!(velocity(&will.held_keys()), (0.0, 0.0));

    let actions = will.on_message(SessionReset::TOPIC, "menu", &[]);
    assert!(!will.paused());
    assert_eq!(will, WillController::default());
    assert_eq!(
        actions,
        vec![
            WillAction::CancelDamageReaction,
            WillAction::Stats(CombatState::default().stats())
        ]
    );
}

#[test]
fn space_swings_once_per_press_from_the_latest_position() {
    let mut will = WillController::default();
    will.transform("game-core", 1, f(10.0), f(20.0));
    will.transform("level_one", 1, f(99.0), f(99.0));
    will.transform("game-core", 7, f(99.0), f(99.0));
    let actions = will.key_down("Space", false);
    assert_eq!(actions.len(), 2);
    match actions[1] {
        WillAction::Attack(request) => {
            assert_eq!(request.sequence, 1);
            assert_eq!((v(request.origin_x), v(request.origin_y)), (10.0, 20.0));
            assert_eq!(request.direction, AttackDirection::Down);
        }
        other => panic!("expected an attack, got {other:?}"),
    }
    assert!(will.key_down("Space", false).is_empty());
    will.key_up("Space", false);
    assert!(will.key_down("Space", false).is_empty(), "the swing still runs");
    assert!(will.key_down("Space", true).is_empty());
}

#[test]
fn only_levels_hurt_or_reward_and_hits_leave_no_marker() {
    let mut will = WillController::default();
    let damage = PlayerDamaged {
        amount: 1,
        source_x: f(1.0),
        source_y: f(2.0),
    }
    .encode();
    assert!(will.on_message(PlayerDamaged::TOPIC, "will", &damage).is_empty());
    let reward = RewardGranted {
        experience: 1,
        coins: 1,
    }
    .encode();
    assert!(will.on_message(RewardGranted::TOPIC, "menu", &reward).is_empty());
    assert!(will
        .on_message(HitConfirmed::TOPIC, "menu", &hit(1, 1.0, 1.0).encode())
        .is_empty());
    assert_eq!(will, WillController::default());

    let actions = will.on_message(RewardGranted::TOPIC, "level_two", &reward);
    assert_eq!(will.stats().coins, 1);
    assert_eq!(actions, vec![WillAction::Stats(will.stats())]);
    let before = will;
    assert!(will
        .on_message(HitConfirmed::TOPIC, "level_one", &hit(1, 1.0, 1.0).encode())
        .is_empty());
    assert_eq!(will, before);
    assert!(will.on_message(RewardGranted::TOPIC, "level_two", &[1]).is_empty());
}

#[test]
fn a_hit_reels_the_character_and_the_last_life_is_announced() {
    let mut will = WillController::default();
    will.key_down("D", false);
    let damage = PlayerDamaged {
        amount: 1,
        source_x: f(1.0),
        source_y: f(2.0),
    };
    let actions = will.on_message(PlayerDamaged::TOPIC, "level_two", &damage.encode());
    assert_eq!(actions.len(), 3);
    assert_eq!(
        actions[0],
        WillAction::StartDamageReaction {
            position: (f(464.0), f(464.0)),
            source: Some((f(1.0), f(2.0))),
            facing: AttackDirection::Down,
        }
    );
    assert_eq!(will.player().mode(), PlayerMode::Damaged);
    assert_eq!(velocity(&will.held_keys()), (0.0, 0.0));
    assert_eq!(will.stats().lives, 2);

    let lethal = PlayerDamaged {
        amount: 9,
        ..damage
    }
    .encode();
    assert!(will.on_message(PlayerDamaged::TOPIC, "level_two", &lethal).is_empty());
    let mut calm = frame(false);
    calm.invulnerability_remaining = f(0.0);
    will.tick(calm);
    let actions = will.on_message(PlayerDamaged::TOPIC, "level_two", &lethal);
    assert_eq!(actions.last(), Some(&WillAction::Defeated));
    assert_eq!(will.stats().lives, 0);
}

#[test]
fn frames_walk_knock_back_and_stop_when_paused() {
    let mut will = WillController::default();
    will.key_down("A", false);
    let walk = will.tick(frame(false));
    assert_eq!(walk.velocity, Some((f(-160.0), f(0.0))));
    assert_eq!(walk.presentation, Some(will.presentation()));
    let again = will.tick(frame(false));
    assert_eq!(again.presentation, None);

    let mut knocked = frame(true);
    knocked.knockback = (f(260.0), f(0.0));
    assert_eq!(will.tick(knocked).velocity, Some((f(260.0), f(0.0))));

    will.set_paused(true);
    let paused = will.tick(frame(false));
    assert_eq!(paused.velocity, None);
    assert_eq!(paused.presentation, None);
}
