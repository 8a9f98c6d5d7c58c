use std::collections::HashSet;

use artificial_will::float_bits::F32Bits;
use artificial_will::levels::box_field::{BoxField, BoxSpawn};
use artificial_will::levels::level_one::{boxes, spawn_level_entities, BOX_ID_START};
use artificial_will::levels::level_two::{
    rock_presentation, rocks, slime_presentation, slimes, visual_ops, SlimeOp, BOULDER_SPRITE_ID,
    ROCK_CLUSTER_SPRITE_ID, ROCK_ID_START, SLIME_HALF_H, SLIME_HALF_W, SLIME_ID_START,
};
use artificial_will::levels::slime_field::{
    SlimeAnimation, SlimeDamage, SlimeField, SlimeFrame, SlimeSpawn, SlimeTick, SlimeVelocity,
    SlimeVisual,
    SLIME_ATTACK_COOLDOWN_BITS, SLIME_DEATH_DURATION_BITS, SLIME_HURT_DURATION_BITS,
};
use artificial_will::messages::{
    AttackDirection, AttackRequested, AttackTarget, RewardGranted, WILL_ENTITY_ID,
};
use artificial_will::targeting::{nearest_candidate, TargetCandidate};

fn f(x: f32) -> F32Bits {
    F32Bits(x.to_bits())
}

fn v(x: F32Bits) -> f32 {
    f32::from_bits(x.0)
}

const SLIME_SPEED: f32 = 72.0;
const SLIME_AWARENESS_RADIUS: f32 = 360.0;
const SLIME_ATTACK_DURATIONS: [f32; 3] = [0.80, 0.88, 0.72];

/// The game's targeting rule: the targets whose boxes meet the swing's
/// forward lane, measured in single precision, and the nearest of them.
fn select(attack: AttackRequested, targets: &[AttackTarget]) -> Option<u32> {
    let (ox, oy, reach, half_width) = (
        v(attack.origin_x),
        v(attack.origin_y),
        v(attack.reach),
        v(attack.half_width),
    );
    if reach <= 0.0
        || half_width < 0.0
        || !ox.is_finite()
        || !oy.is_finite()
        || !reach.is_finite()
        || !half_width.is_finite()
    {
        return None;
    }
    let mut candidates = Vec::new();
    for target in targets {
        let (x, y, hw, hh) = (v(target.x), v(target.y), v(target.half_w), v(target.half_h));
        if !x.is_finite() || !y.is_finite() || !hw.is_finite() || !hh.is_finite() || hw < 0.0 || hh < 0.0 {
            continue;
        }
        let (dx, dy) = (x - ox, y - oy);
        let (forward, lateral, forward_extent, lateral_extent) = match attack.direction {
            AttackDirection::Up => (-dy, dx, hh, hw),
            AttackDirection::Down => (dy, dx, hh, hw),
            AttackDirection::Left => (-dx, dy, hw, hh),
            AttackDirection::Right => (dx, dy, hw, hh),
        };
        if forward + forward_extent >= 0.0
            && forward - forward_extent <= reach
            && lateral.abs() <= half_width + lateral_extent
        {
            candidates.push(TargetCandidate {
                entity_id: target.entity_id,
                distance_squared: f(dx * dx + dy * dy),
            });
        }
    }
    nearest_candidate(&candidates).map(|index| candidates[index].entity_id)
}

fn box_attack(sequence: u32) -> AttackRequested {
    AttackRequested {
        sequence,
        origin_x: f(100.0),
        origin_y: f(100.0),
        direction: AttackDirection::Right,
        reach: f(80.0),
        half_width: f(20.0),
    }
}

fn swing_boxes(field: &mut BoxField, attack: AttackRequested) -> Option<artificial_will::levels::box_field::DestroyedBox> {
    let target = select(attack, &field.targets());
    field.attack(attack, target)
}

fn spawn(x: f32, y: f32, coins: u32) -> BoxSpawn {
    BoxSpawn {
        x: f(x),
        y: f(y),
        coins,
    }
}

#[test]
fn one_swing_destroys_only_the_nearest_box_and_yields_its_coins() {
    let mut field = BoxField::new(2, &[spawn(150.0, 100.0, 2), spawn(130.0, 100.0, 4)]);

    let destroyed = swing_boxes(&mut field, box_attack(1)).expect("nearest box hit");
    assert_eq!(destroyed.hit.entity_id, 3);
    assert_eq!(destroyed.reward.experience, 0);
    assert_eq!(destroyed.reward.coins, 4);

    let next = swing_boxes(&mut field, box_attack(2)).expect("remaining box hit");
    assert_eq!(next.hit.entity_id, 2);
}

#[test]
fn repeated_attack_sequence_cannot_destroy_a_second_box() {
    let mut field = BoxField::new(2, &[spawn(120.0, 100.0, 1), spawn(140.0, 100.0, 1)]);
    assert!(swing_boxes(&mut field, box_attack(7)).is_some());
    assert_eq!(swing_boxes(&mut field, box_attack(7)), None);
    assert_eq!(
        swing_boxes(&mut field, box_attack(8))
            .expect("second swing")
            .hit
            .entity_id,
        3
    );
}

#[test]
fn authoritative_transform_updates_drive_target_selection() {
    let mut field = BoxField::new(2, &[spawn(300.0, 300.0, 1)]);
    field.update_transform(2, f(130.0), f(100.0));
    assert_eq!(
        swing_boxes(&mut field, box_attack(1))
            .expect("moved box")
            .hit
            .entity_id,
        2
    );
}

#[test]
fn malformed_or_unknown_transform_updates_are_ignored() {
    let mut field = BoxField::new(2, &[spawn(130.0, 100.0, 1)]);
    field.update_transform(2, f(f32::NAN), f(0.0));
    field.update_transform(99, f(110.0), f(100.0));
    assert_eq!(
        (v(field.boxes()[0].x), v(field.boxes()[0].y)),
        (130.0, 100.0)
    );
}

#[test]
fn broken_boxes_are_no_longer_targets_or_moved() {
    let mut field = BoxField::new(2, &[spawn(130.0, 100.0, 5)]);
    assert_eq!(field.targets().len(), 1);
    let destroyed = field.attack(box_attack(1), Some(2)).expect("named box breaks");
    assert_eq!(
        destroyed.reward,
        RewardGranted {
            experience: 0,
            coins: 5
        }
    );
    assert_eq!((v(destroyed.hit.x), v(destroyed.hit.y)), (130.0, 100.0));
    assert!(field.targets().is_empty());
    field.update_transform(2, f(1.0), f(1.0));
    assert_eq!(v(field.boxes()[0].x), 130.0);
    assert_eq!(field.attack(box_attack(2), Some(2)), None);
    assert_eq!(field.attack(box_attack(3), Some(42)), None);
    assert_eq!(field.attack(box_attack(4), None), None);
    let target = field.targets();
    assert!(target.is_empty());
}

#[test]
fn box_ids_are_derived_from_the_spawn_table_and_do_not_use_wills_id() {
    let table = boxes();
    let ids = (0..table.len())
        .map(|index| BOX_ID_START + index as u32)
        .collect::<HashSet<_>>();
    assert_eq!(ids.len(), table.len());
    assert!(!ids.contains(&WILL_ENTITY_ID));
    let spawned = spawn_level_entities();
    assert_eq!(
        spawned.iter().map(|(id, _)| *id).collect::<Vec<_>>(),
        vec![2, 3, 4]
    );
    assert_eq!(
        spawned.iter().map(|(_, b)| b.coins).collect::<Vec<_>>(),
        vec![1, 2, 3]
    );
}

#[test]
fn rock_field_is_dense_and_keeps_wills_spawn_clear() {
    let rocks = rocks();
    assert!(rocks.len() >= 14);
    let spawn = (464.0f32, 464.0f32);
    assert!(rocks.iter().all(|rock| {
        (spawn.0 - rock.x as f32).abs() > rock.half_w as f32 + 32.0
            || (spawn.1 - rock.y as f32).abs() > rock.half_h as f32 + 32.0
    }));
}

#[test]
fn rock_entity_ids_leave_room_for_will_and_slimes() {
    assert!(ROCK_ID_START > WILL_ENTITY_ID);
    assert!(ROCK_ID_START + (rocks().len() as u32) < SLIME_ID_START);
}

#[test]
fn passive_slimes_are_clear_of_will_and_rocks() {
    let placements = slimes();
    assert_eq!(placements.len(), 6);
    let will_spawn = (464.0f32, 464.0f32);
    let (half_w, half_h) = (SLIME_HALF_W as f32, SLIME_HALF_H as f32);
    for slime in &placements {
        let (x, y) = (slime.x as f32, slime.y as f32);
        assert!(
            (will_spawn.0 - x).abs() > half_w + 10.0 || (will_spawn.1 - y).abs() > half_h + 27.0
        );
        assert!(rocks().iter().all(|rock| {
            (rock.x as f32 - x).abs() > rock.half_w as f32 + half_w
                || (rock.y as f32 - y).abs() > rock.half_h as f32 + half_h
        }));
    }
}

#[test]
fn slime_idle_presentation_loops_while_stationary() {
    for sprite_set in 0..3 {
        let presentation = slime_presentation(sprite_set, SlimeAnimation::Idle);
        assert_eq!(presentation.sprite.sprite_id, 30 + sprite_set as u32);
        assert_eq!(presentation.sprite.frame_count, 6);
        assert!(presentation.looping);
        assert!(presentation.advance_while_stopped);
    }
    let attack = slime_presentation(1, SlimeAnimation::Attack);
    assert_eq!(attack.sprite.sprite_id, 37);
    assert_eq!(attack.sprite.frame_count, 11);
    assert!(!attack.looping);
    assert_eq!(v(attack.sprite.frame_duration), 0.08);
}

#[test]
fn slime_ids_are_unique_and_separate_from_level_geometry() {
    let last_rock_id = ROCK_ID_START + rocks().len() as u32 - 1;
    let last_slime_id = SLIME_ID_START + slimes().len() as u32 - 1;
    assert!(SLIME_ID_START > last_rock_id);
    assert_eq!(last_slime_id - SLIME_ID_START + 1, slimes().len() as u32);
}

#[test]
fn every_rock_uses_art_with_an_aligned_fixed_collider() {
    assert!(rocks().iter().all(|rock| {
        matches!(rock.sprite_id, ROCK_CLUSTER_SPRITE_ID | BOULDER_SPRITE_ID)
            && rock.half_w > 0
            && rock.half_h > 0
            && rock.draw_w > rock.half_w * 2
            && rock.draw_h > rock.half_h * 2
    }));
    let presentation = rock_presentation(rocks()[0]);
    assert_eq!(presentation.sprite.frame_count, 1);
    assert!(!presentation.looping);
}

/// What the engine measures of each slime for a frame of `dt` seconds.
fn frames(field: &SlimeField, dt: f32) -> Vec<SlimeFrame> {
    let dt = dt.max(0.0);
    let (wx, wy) = field.will_position();
    let (wx, wy) = (v(wx), v(wy));
    field
        .slimes()
        .iter()
        .map(|slime| {
            let dx = wx - v(slime.x);
            let dy = wy - v(slime.y);
            let distance_squared = dx * dx + dy * dy;
            let (vx, vy) = if distance_squared <= f32::EPSILON
                || distance_squared > SLIME_AWARENESS_RADIUS * SLIME_AWARENESS_RADIUS
            {
                (0.0, 0.0)
            } else {
                let scale = SLIME_SPEED / distance_squared.sqrt();
                (dx * scale, dy * scale)
            };
            SlimeFrame {
                cooldown_remaining: f((v(slime.attack_cooldown_remaining) - dt).max(0.0)),
                reaction_remaining: f((v(slime.reaction_remaining) - dt).max(0.0)),
                distance_squared: f(distance_squared),
                pursuit_vx: f(vx),
                pursuit_vy: f(vy),
            }
        })
        .collect()
}

fn tick(field: &mut SlimeField, dt: f32) -> SlimeTick {
    let measured = frames(field, dt);
    field.tick(&measured)
}

fn velocities(field: &SlimeField) -> Vec<SlimeVelocity> {
    field.velocities(&frames(field, 0.0))
}

fn slime_field(spawns: &[SlimeSpawn], will: (f32, f32)) -> SlimeField {
    SlimeField::new(200, spawns, (f(will.0), f(will.1)))
}

fn slime_spawns() -> Vec<SlimeSpawn> {
    vec![
        SlimeSpawn::new(0, f(100.0), f(100.0)),
        SlimeSpawn::new(1, f(500.0), f(500.0)),
    ]
}

fn slime_attack(sequence: u32) -> AttackRequested {
    AttackRequested {
        sequence,
        origin_x: f(50.0),
        origin_y: f(100.0),
        direction: AttackDirection::Right,
        reach: f(80.0),
        half_width: f(20.0),
    }
}

fn swing_slimes(field: &mut SlimeField, sequence: u32) -> Option<artificial_will::levels::slime_field::SlimeHit> {
    let attack = slime_attack(sequence);
    let target = select(attack, &field.targets());
    field.attack(attack, target)
}

const SLIME_HURT_DURATION: f32 = 0.40;
const SLIME_DEATH_DURATION: f32 = 0.80;
const SLIME_ATTACK_COOLDOWN: f32 = 0.70;

#[test]
fn slime_timing_constants_hold_their_documented_values() {
    assert_eq!(v(F32Bits(SLIME_HURT_DURATION_BITS)), SLIME_HURT_DURATION);
    assert_eq!(v(F32Bits(SLIME_DEATH_DURATION_BITS)), SLIME_DEATH_DURATION);
    assert_eq!(v(F32Bits(SLIME_ATTACK_COOLDOWN_BITS)), SLIME_ATTACK_COOLDOWN);
}

#[test]
fn nearby_slimes_chase_at_constant_speed_and_distant_slimes_stop() {
    let field = slime_field(&slime_spawns(), (172.0, 196.0));
    let velocities = velocities(&field);
    assert!((v(velocities[0].vx) - 43.2).abs() < 0.001);
    assert!((v(velocities[0].vy) - 57.6).abs() < 0.001);
    assert_eq!((v(velocities[1].vx), v(velocities[1].vy)), (0.0, 0.0));
}

#[test]
fn authoritative_updates_change_both_pursuer_and_target_positions() {
    let mut field = slime_field(&slime_spawns(), (500.0, 500.0));
    field.update_transform(WILL_ENTITY_ID, f(200.0), f(100.0));
    field.update_transform(200, f(120.0), f(100.0));
    let velocity = velocities(&field)[0];
    assert_eq!((v(velocity.vx), v(velocity.vy)), (SLIME_SPEED, 0.0));
}

#[test]
fn malformed_updates_are_ignored_and_pause_stops_every_slime() {
    let mut field = slime_field(&slime_spawns(), (172.0, 196.0));
    field.update_transform(WILL_ENTITY_ID, f(f32::NAN), f(0.0));
    assert_ne!(v(velocities(&field)[0].vx), 0.0);

    field.set_paused(true);
    assert!(velocities(&field)
        .iter()
        .all(|velocity| (v(velocity.vx), v(velocity.vy)) == (0.0, 0.0)));
}

#[test]
fn slime_requires_two_unique_hits_and_rewards_only_on_defeat() {
    let mut field = slime_field(&slime_spawns()[..1], (0.0, 0.0));
    let first = swing_slimes(&mut field, 1).expect("first hit");
    assert_eq!(first.hit.entity_id, 200);
    assert!(!first.defeated);
    assert_eq!(first.reward, None);

    assert_eq!(swing_slimes(&mut field, 1), None);
    let second = swing_slimes(&mut field, 2).expect("second hit");
    assert!(second.defeated);
    assert_eq!(
        second.reward,
        Some(RewardGranted {
            experience: 1,
            coins: 0,
        })
    );
    assert_eq!(swing_slimes(&mut field, 3), None);
}

#[test]
fn defeated_slime_stops_moving_and_cannot_damage_will() {
    let mut field = slime_field(&slime_spawns()[..1], (172.0, 100.0));
    swing_slimes(&mut field, 1);
    swing_slimes(&mut field, 2);

    assert!(velocities(&field).is_empty());
    assert!(tick(&mut field, 10.0).damages.is_empty());
}

#[test]
fn hurt_and_contact_reactions_stop_motion_then_recover() {
    let mut field = slime_field(&slime_spawns()[..1], (172.0, 100.0));
    let hit = swing_slimes(&mut field, 1).unwrap();
    assert_eq!(hit.visual.animation, SlimeAnimation::Hurt);
    assert_eq!(
        (v(velocities(&field)[0].vx), v(velocities(&field)[0].vy)),
        (0.0, 0.0)
    );

    let during = tick(&mut field, SLIME_HURT_DURATION * 0.5);
    assert!(during.visuals.is_empty());
    let recovered = tick(&mut field, SLIME_HURT_DURATION);
    assert_eq!(recovered.visuals[0].animation, SlimeAnimation::Walk);
    assert_eq!(v(recovered.velocities[0].vx), SLIME_SPEED);
}

#[test]
fn death_visual_is_removed_only_after_its_animation_finishes() {
    let mut field = slime_field(&slime_spawns()[..1], (172.0, 100.0));
    swing_slimes(&mut field, 1);
    let death = swing_slimes(&mut field, 2).unwrap();
    assert_eq!(death.visual.animation, SlimeAnimation::Death);

    assert!(tick(&mut field, SLIME_DEATH_DURATION * 0.5).despawns.is_empty());
    assert_eq!(
        tick(&mut field, SLIME_DEATH_DURATION).despawns,
        vec![death.hit.entity_id]
    );
    assert!(tick(&mut field, 1.0).despawns.is_empty());
}

#[test]
fn pause_freezes_reaction_timers() {
    let mut field = slime_field(&slime_spawns()[..1], (172.0, 100.0));
    swing_slimes(&mut field, 1);
    field.set_paused(true);
    tick(&mut field, 10.0);
    field.set_paused(false);

    assert!(tick(&mut field, SLIME_HURT_DURATION * 0.5).visuals.is_empty());
    assert_eq!(
        tick(&mut field, SLIME_HURT_DURATION).visuals[0].animation,
        SlimeAnimation::Walk
    );
}

#[test]
fn close_range_starts_a_telegraphed_attack_without_contact_damage() {
    let mut field = slime_field(&slime_spawns()[..1], (100.0, 100.0));
    let started = tick(&mut field, 0.016);
    assert!(started.damages.is_empty());
    assert_eq!(started.visuals[0].animation, SlimeAnimation::Attack);
    assert_eq!(
        (v(started.velocities[0].vx), v(started.velocities[0].vy)),
        (0.0, 0.0)
    );

    assert!(tick(&mut field, 0.40).damages.is_empty());
    let impact = tick(&mut field, 0.05);
    assert_eq!(
        impact.damages,
        vec![SlimeDamage {
            amount: 1,
            source_x: f(100.0),
            source_y: f(100.0),
        }]
    );
    assert!(tick(&mut field, 0.10).damages.is_empty());
}

#[test]
fn leaving_attack_range_during_windup_avoids_the_strike() {
    let mut field = slime_field(&slime_spawns()[..1], (150.0, 100.0));
    tick(&mut field, 0.0);
    field.update_transform(WILL_ENTITY_ID, f(300.0), f(100.0));
    assert!(tick(&mut field, 0.50).damages.is_empty());
}

#[test]
fn completed_attack_has_a_cooldown_before_another_windup() {
    let mut field = slime_field(&slime_spawns()[..1], (150.0, 100.0));
    tick(&mut field, 0.0);
    tick(&mut field, SLIME_ATTACK_DURATIONS[0]);

    let cooling_down = tick(&mut field, SLIME_ATTACK_COOLDOWN * 0.9);
    assert!(cooling_down.damages.is_empty());
    assert!(cooling_down.visuals.is_empty());
    assert_eq!(
        (
            v(cooling_down.velocities[0].vx),
            v(cooling_down.velocities[0].vy)
        ),
        (0.0, 0.0)
    );

    let ready = tick(&mut field, SLIME_ATTACK_COOLDOWN);
    assert_eq!(ready.visuals[0].animation, SlimeAnimation::Attack);
    assert!(ready.damages.is_empty());
}

#[test]
fn being_hurt_interrupts_a_pending_enemy_strike() {
    let mut field = slime_field(&slime_spawns()[..1], (150.0, 100.0));
    tick(&mut field, 0.0);
    assert_eq!(
        swing_slimes(&mut field, 1).unwrap().visual.animation,
        SlimeAnimation::Hurt
    );
    assert!(tick(&mut field, SLIME_HURT_DURATION).damages.is_empty());
}

#[test]
fn paused_frames_report_only_still_velocities_for_the_living() {
    let mut field = slime_field(&slime_spawns(), (172.0, 196.0));
    field.set_paused(true);
    let paused = tick(&mut field, 1.0);
    assert_eq!(paused.velocities.len(), 2);
    assert!(paused.visuals.is_empty() && paused.damages.is_empty() && paused.despawns.is_empty());
    assert!(field.paused());
}

#[test]
fn the_targeting_rule_prefers_the_nearest_then_the_lower_id() {
    let near = |id, d: f32| TargetCandidate {
        entity_id: id,
        distance_squared: f(d),
    };
    assert_eq!(nearest_candidate(&[]), None);
    assert_eq!(
        nearest_candidate(&[near(5, 9.0), near(4, 4.0), near(1, 16.0)]),
        Some(1)
    );
    assert_eq!(
        nearest_candidate(&[near(5, 4.0), near(3, 4.0), near(3, 4.0)]),
        Some(1)
    );
    assert_eq!(nearest_candidate(&[near(7, f32::INFINITY), near(8, 1e30)]), Some(1));
}

#[test]
fn dying_slimes_leave_walkable_remains() {
    let dying = SlimeVisual {
        entity_id: 201,
        sprite_set: 2,
        animation: SlimeAnimation::Death,
        x: f(10.0),
        y: f(20.0),
    };
    let shown = slime_presentation(2, SlimeAnimation::Death);
    assert_eq!(shown.sprite.sprite_id, 44);
    assert_eq!(
        visual_ops(dying),
        vec![
            SlimeOp::Despawn { entity_id: 201 },
            SlimeOp::SpawnRemains {
                entity_id: 201,
                x: f(10.0),
                y: f(20.0),
                presentation: shown
            },
            SlimeOp::SetSprite {
                entity_id: 201,
                presentation: shown
            },
        ]
    );
    let walking = SlimeVisual {
        animation: SlimeAnimation::Walk,
        ..dying
    };
    assert_eq!(
        visual_ops(walking),
        vec![SlimeOp::SetSprite {
            entity_id: 201,
            presentation: slime_presentation(2, SlimeAnimation::Walk)
        }]
    );
}

#[test]
fn a_despawned_slime_is_never_moved_shown_or_hit_again() {
    let mut field = slime_field(&slime_spawns()[..1], (172.0, 100.0));
    swing_slimes(&mut field, 1);
    let death = swing_slimes(&mut field, 2).unwrap();
    let id = death.hit.entity_id;
    assert_eq!(tick(&mut field, SLIME_DEATH_DURATION).despawns, vec![id]);
    field.update_transform(id, f(10.0), f(10.0));
    field.set_paused(true);
    tick(&mut field, 0.5);
    field.set_paused(false);
    assert!(field.attack(slime_attack(3), Some(id)).is_none());
    for dt in [0.016, 1.0, 5.0] {
        let later = tick(&mut field, dt);
        assert!(later.despawns.is_empty());
        assert!(later.velocities.iter().all(|velocity| velocity.entity_id != id));
        assert!(later.visuals.iter().all(|visual| visual.entity_id != id));
    }
}
