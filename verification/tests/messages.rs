use artificial_will::float_bits::F32Bits;
use artificial_will::messages::{
    will_spawn, AttackDirection, AttackRequested, HitConfirmed, PauseChanged, PlayerDamaged,
    PlayerDefeated, PlayerStats, RewardGranted, SessionReset, WILL_ENTITY_ID,
};
use artificial_will::wire::DecodeError;

fn f(x: f32) -> F32Bits {
    F32Bits(x.to_bits())
}

fn attack(direction: AttackDirection) -> AttackRequested {
    AttackRequested {
        sequence: 9,
        origin_x: f(100.0),
        origin_y: f(100.0),
        direction,
        reach: f(64.0),
        half_width: f(18.0),
    }
}

#[test]
fn every_combat_message_round_trips() {
    let attack = attack(AttackDirection::Left);
    assert_eq!(AttackRequested::decode(&attack.encode()), Ok(attack));

    let damage = PlayerDamaged {
        amount: 1,
        source_x: f(12.0),
        source_y: f(13.0),
    };
    assert_eq!(PlayerDamaged::decode(&damage.encode()), Ok(damage));
    assert_eq!(damage.source(), Some((f(12.0), f(13.0))));

    let reward = RewardGranted {
        experience: 2,
        coins: 3,
    };
    assert_eq!(RewardGranted::decode(&reward.encode()), Ok(reward));

    let hit = HitConfirmed {
        sequence: 9,
        entity_id: 42,
        x: f(12.0),
        y: f(13.0),
    };
    assert_eq!(HitConfirmed::decode(&hit.encode()), Ok(hit));

    assert_eq!(PlayerDefeated::decode(&[]), Ok(PlayerDefeated));

    let stats = PlayerStats {
        lives: 3,
        experience: 4,
        level: 2,
        coins: 5,
    };
    assert_eq!(PlayerStats::decode(&stats.encode()), Ok(stats));
}

#[test]
fn damage_rejects_non_finite_source_coordinates() {
    let damage = PlayerDamaged {
        amount: 1,
        source_x: f(f32::NAN),
        source_y: f(13.0),
    };
    assert_eq!(damage.source(), None);
}

#[test]
fn attack_decode_rejects_unknown_directions_and_trailing_bytes() {
    let mut invalid_direction = attack(AttackDirection::Up).encode();
    invalid_direction[12] = 99;
    assert_eq!(
        AttackRequested::decode(&invalid_direction),
        Err(DecodeError::InvalidTag {
            message: "attack direction",
            tag: 99
        })
    );

    let mut trailing = attack(AttackDirection::Up).encode();
    trailing.push(0);
    assert_eq!(
        AttackRequested::decode(&trailing),
        Err(DecodeError::TrailingBytes)
    );
}

#[test]
fn pause_changed_round_trips_and_rejects_unknown_states() {
    let message = PauseChanged { paused: true };
    assert_eq!(PauseChanged::decode(&message.encode()), Ok(message));
    assert!(PauseChanged::decode(&[2]).is_err());
}

#[test]
fn session_reset_accepts_only_an_empty_payload() {
    assert_eq!(
        SessionReset::decode(&SessionReset.encode()),
        Ok(SessionReset)
    );
    assert!(SessionReset::decode(&[0]).is_err());
}

#[test]
fn attack_request_wire_layout_is_little_endian_with_the_direction_byte_at_twelve() {
    let bytes = AttackRequested {
        sequence: 0x0403_0201,
        origin_x: f(1.0),
        origin_y: f(-2.0),
        direction: AttackDirection::Right,
        reach: f(56.0),
        half_width: f(24.0),
    }
    .encode();
    assert_eq!(bytes.len(), 21);
    assert_eq!(&bytes[0..4], &[1, 2, 3, 4]);
    assert_eq!(&bytes[4..8], &1.0f32.to_le_bytes());
    assert_eq!(&bytes[8..12], &(-2.0f32).to_le_bytes());
    assert_eq!(bytes[12], 3);
    assert_eq!(&bytes[13..17], &56.0f32.to_le_bytes());
    assert_eq!(&bytes[17..21], &24.0f32.to_le_bytes());
}

#[test]
fn every_direction_has_its_own_tag() {
    for (direction, tag) in [
        (AttackDirection::Up, 0u8),
        (AttackDirection::Down, 1),
        (AttackDirection::Left, 2),
        (AttackDirection::Right, 3),
    ] {
        let bytes = attack(direction).encode();
        assert_eq!(bytes[12], tag);
        assert_eq!(AttackRequested::decode(&bytes).unwrap().direction, direction);
    }
}

#[test]
fn short_payloads_report_an_unexpected_end() {
    let bytes = attack(AttackDirection::Down).encode();
    assert_eq!(
        AttackRequested::decode(&bytes[..20]),
        Err(DecodeError::UnexpectedEnd)
    );
    assert_eq!(
        AttackRequested::decode(&bytes[..12]),
        Err(DecodeError::UnexpectedEnd)
    );
    assert_eq!(PauseChanged::decode(&[]), Err(DecodeError::UnexpectedEnd));
    assert_eq!(PlayerDamaged::decode(&[1, 0, 0]), Err(DecodeError::UnexpectedEnd));
    assert_eq!(RewardGranted::decode(&[0; 7]), Err(DecodeError::UnexpectedEnd));
    assert_eq!(HitConfirmed::decode(&[0; 15]), Err(DecodeError::UnexpectedEnd));
    assert_eq!(PlayerStats::decode(&[0; 12]), Err(DecodeError::UnexpectedEnd));
}

#[test]
fn every_fixed_size_message_rejects_trailing_bytes() {
    assert_eq!(PauseChanged::decode(&[0, 0]), Err(DecodeError::TrailingBytes));
    assert_eq!(PlayerDamaged::decode(&[0; 10]), Err(DecodeError::TrailingBytes));
    assert_eq!(RewardGranted::decode(&[0; 9]), Err(DecodeError::TrailingBytes));
    assert_eq!(HitConfirmed::decode(&[0; 17]), Err(DecodeError::TrailingBytes));
    assert_eq!(PlayerStats::decode(&[0; 14]), Err(DecodeError::TrailingBytes));
    assert_eq!(PlayerDefeated::decode(&[0]), Err(DecodeError::TrailingBytes));
    assert_eq!(
        PauseChanged::decode(&[7]),
        Err(DecodeError::InvalidTag {
            message: "pause state",
            tag: 7
        })
    );
}

#[test]
fn infinite_sources_are_unknown_but_zero_is_a_source() {
    let infinite = PlayerDamaged {
        amount: 1,
        source_x: f(3.0),
        source_y: f(f32::INFINITY),
    };
    assert_eq!(infinite.source(), None);
    let origin = PlayerDamaged {
        amount: 1,
        source_x: f(0.0),
        source_y: f(-0.0),
    };
    assert_eq!(origin.source(), Some((f(0.0), f(-0.0))));
}

#[test]
fn will_spawns_at_the_shared_point_with_the_reserved_id() {
    assert_eq!(will_spawn(), (f(464.0), f(464.0)));
    assert_eq!(WILL_ENTITY_ID, 1);
    assert_eq!(PauseChanged::TOPIC, "game/pause-changed");
    assert_eq!(SessionReset::TOPIC, "game/session-reset");
}
