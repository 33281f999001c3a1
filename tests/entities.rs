use demottack::bullet::{Bullet, BulletHurtType};
use demottack::enemy::{
    Enemy, EnemyColor, EnemyDeathMethod, EnemyDraws, EnemyState, EnemyStateHoming,
    EnemyStateNormal, EnemyStateShooting, EnemyStateSpawning, EnemyType,
};
use demottack::geom::{vec2, Rect, Vec2};
use demottack::player::{Player, PlayerInput, PlayerState};
use demottack::resources::{Resources, SoundCue, SoundIdentifier, Sprite};
use demottack::wave::{LastEnemyDeathReason, WaveManager};

fn sprite(w: i64, h: i64) -> Sprite {
    Sprite { variant: 0, w, h }
}

fn still_draws() -> EnemyDraws {
    EnemyDraws { jitter_x: 1000, jitter_y: 1000, shot_count: 3, two_bullets: false }
}

#[test]
fn bullet_new_sets_velocity_by_side() {
    let up = Bullet::new(vec2(10000, 20000), BulletHurtType::Enemy);
    assert_eq!(up.vel, vec2(0, -80));
    assert_eq!(up.collision_rect, Rect::new(10000, 20000, 2000, 6000));
    assert!(!up.is_kill);
    let down = Bullet::new(vec2(10000, 20000), BulletHurtType::Player);
    assert_eq!(down.vel, vec2(0, 80));
}

#[test]
fn bullet_update_moves_by_velocity_times_dt() {
    let mut b = Bullet::new(vec2(10000, 20000), BulletHurtType::Enemy);
    b.update(250);
    assert_eq!(b.pos, vec2(10000, 0));
    assert_eq!(b.collision_rect.x, b.pos.x);
    assert_eq!(b.collision_rect.y, b.pos.y);
    b.update(0);
    assert_eq!(b.pos, vec2(10000, 0));
    let mut d = Bullet::new(vec2(-5, 7), BulletHurtType::Player);
    d.update(1000);
    assert_eq!(d.pos, vec2(-5, 80007));
    assert_eq!(d.collision_rect, Rect::new(-5, 80007, 2000, 6000));
    assert_eq!(d.anim_timer, 1000);
}

#[test]
fn bullet_frame_index_runs_over_three_frames() {
    let mut b = Bullet::new(vec2(0, 0), BulletHurtType::Enemy);
    assert_eq!(b.frame_index(), 0);
    b.update(150);
    assert_eq!(b.frame_index(), 1);
    b.update(150);
    assert_eq!(b.frame_index(), 2);
    b.update(500);
    assert_eq!(b.frame_index(), 2);
}

#[test]
fn rects_touching_at_an_edge_overlap() {
    let a = Rect::new(0, 0, 10, 10);
    assert!(a.overlaps(&Rect::new(10, 10, 5, 5)));
    assert!(!a.overlaps(&Rect::new(11, 0, 5, 5)));
    assert!(!a.overlaps(&Rect::new(0, -6, 5, 5)));
    let b = Bullet::new(vec2(3, 3), BulletHurtType::Enemy);
    assert!(b.overlaps(&a));
}

#[test]
fn clamp_in_view_keeps_enemies_in_the_playfield() {
    let mut p = vec2(-100, 200000);
    Enemy::clamp_in_view(&mut p);
    assert_eq!(p, vec2(4000, 70000));
    let mut q = vec2(300000, 0);
    Enemy::clamp_in_view(&mut q);
    assert_eq!(q, vec2(236000, 7000));
    let mut r = vec2(50000, 40000);
    Enemy::clamp_in_view(&mut r);
    assert_eq!(r, vec2(50000, 40000));
}

#[test]
fn color_from_index_follows_the_list() {
    assert_eq!(EnemyColor::from_index(0), EnemyColor::Purple);
    assert_eq!(EnemyColor::from_index(1), EnemyColor::Green);
    assert_eq!(EnemyColor::from_index(2), EnemyColor::Red);
}

#[test]
fn enemy_new_starts_spawning() {
    let e = Enemy::new(
        vec2(1000, 2000),
        sprite(16000, 8000),
        1,
        EnemyDeathMethod::Vanish,
        EnemyType::Mini,
        EnemyColor::Red,
        5000,
    );
    assert_eq!(e.state, EnemyState::Spawning(EnemyStateSpawning { spawn_timer: 0 }));
    assert_eq!(e.state_shared.charge_timer_optional, Some(5000));
    assert_eq!(e.state_shared.collision_rect, Rect::new(0, 0, 16000, 8000));
    let n = Enemy::new(
        vec2(1000, 2000),
        sprite(16000, 8000),
        1,
        EnemyDeathMethod::SpawnChildren(2),
        EnemyType::Normal,
        EnemyColor::Red,
        5000,
    );
    assert_eq!(n.state_shared.charge_timer_optional, None);
}

#[test]
fn spawning_turns_normal_once_at_the_threshold() {
    let mut e = Enemy::new(
        vec2(100000, 30000),
        sprite(16000, 8000),
        1,
        EnemyDeathMethod::Vanish,
        EnemyType::Normal,
        EnemyColor::Purple,
        0,
    );
    let mut bullets: Vec<Bullet> = Vec::new();
    let mut wm = WaveManager::new();
    let mut sounds: Vec<SoundCue> = Vec::new();
    let player = vec2(100000, 114000);
    e.update_with(300, &still_draws(), &mut bullets, &player, &mut wm, &mut sounds);
    assert_eq!(e.state, EnemyState::Spawning(EnemyStateSpawning { spawn_timer: 300 }));
    e.update_with(399, &still_draws(), &mut bullets, &player, &mut wm, &mut sounds);
    assert_eq!(e.state, EnemyState::Spawning(EnemyStateSpawning { spawn_timer: 699 }));
    e.update_with(1, &still_draws(), &mut bullets, &player, &mut wm, &mut sounds);
    assert_eq!(e.state, EnemyState::Normal(EnemyStateNormal { shoot_timer: 0 }));
    for _ in 0..40 {
        e.update_with(100, &still_draws(), &mut bullets, &player, &mut wm, &mut sounds);
        assert!(!matches!(e.state, EnemyState::Spawning(_)));
    }
}

#[test]
fn mini_spawns_faster() {
    let mut e = Enemy::new(
        vec2(100000, 30000),
        sprite(8000, 8000),
        1,
        EnemyDeathMethod::Vanish,
        EnemyType::Mini,
        EnemyColor::Green,
        9000,
    );
    let mut bullets: Vec<Bullet> = Vec::new();
    let mut wm = WaveManager::new();
    let mut sounds: Vec<SoundCue> = Vec::new();
    e.update_with(300, &still_draws(), &mut bullets, &vec2(0, 0), &mut wm, &mut sounds);
    assert_eq!(e.state, EnemyState::Normal(EnemyStateNormal { shoot_timer: 0 }));
}

#[test]
fn normal_enemy_starts_a_burst_after_the_shoot_interval() {
    let mut e = Enemy::new(
        vec2(100000, 30000),
        sprite(16000, 8000),
        1,
        EnemyDeathMethod::Vanish,
        EnemyType::Normal,
        EnemyColor::Purple,
        0,
    );
    e.state = EnemyState::Normal(EnemyStateNormal { shoot_timer: 1900 });
    let mut bullets: Vec<Bullet> = Vec::new();
    let mut wm = WaveManager::new();
    let mut sounds: Vec<SoundCue> = Vec::new();
    e.update_with(100, &still_draws(), &mut bullets, &vec2(0, 0), &mut wm, &mut sounds);
    assert_eq!(e.state, EnemyState::Normal(EnemyStateNormal { shoot_timer: 2000 }));
    assert_eq!(e.state_shared.pos, vec2(100000, 30000));
    assert_eq!(e.state_shared.collision_rect, Rect::new(92000, 30000, 16000, 8000));
    e.update_with(1, &still_draws(), &mut bullets, &vec2(0, 0), &mut wm, &mut sounds);
    assert_eq!(
        e.state,
        EnemyState::Shooting(EnemyStateShooting { shots_left: 3, shoot_timer: 200 })
    );
    assert!(bullets.is_empty());
}

#[test]
fn jitter_moves_a_normal_enemy() {
    let mut e = Enemy::new(
        vec2(100000, 30000),
        sprite(16000, 8000),
        1,
        EnemyDeathMethod::Vanish,
        EnemyType::Normal,
        EnemyColor::Purple,
        0,
    );
    e.state = EnemyState::Normal(EnemyStateNormal { shoot_timer: 0 });
    let draws =
        EnemyDraws { jitter_x: 0, jitter_y: 1500, shot_count: 1, two_bullets: false };
    let mut bullets: Vec<Bullet> = Vec::new();
    let mut wm = WaveManager::new();
    let mut sounds: Vec<SoundCue> = Vec::new();
    e.update_with(100, &draws, &mut bullets, &vec2(0, 0), &mut wm, &mut sounds);
    // x: 0 - 50 * 100; y: 1500 * 50 * 100 / 1000 - 50 * 100
    assert_eq!(e.state_shared.pos, vec2(95000, 32500));
}

#[test]
fn a_burst_fires_exactly_its_shots_then_returns_to_normal() {
    let mut e = Enemy::new(
        vec2(100000, 30000),
        sprite(16000, 8000),
        1,
        EnemyDeathMethod::Vanish,
        EnemyType::Normal,
        EnemyColor::Purple,
        0,
    );
    e.state = EnemyState::Shooting(EnemyStateShooting { shots_left: 3, shoot_timer: 200 });
    let mut bullets: Vec<Bullet> = Vec::new();
    let mut wm = WaveManager::new();
    let mut sounds: Vec<SoundCue> = Vec::new();
    let mut updates = 0;
    while matches!(e.state, EnemyState::Shooting(_)) {
        e.update_with(100, &still_draws(), &mut bullets, &vec2(0, 0), &mut wm, &mut sounds);
        updates += 1;
    }
    assert_eq!(updates, 6);
    assert_eq!(bullets.len(), 3);
    assert_eq!(e.state, EnemyState::Normal(EnemyStateNormal { shoot_timer: 0 }));
    assert!(bullets.iter().all(|b| b.hurt_type == BulletHurtType::Player));
    assert_eq!(bullets[0].pos, vec2(100000, 27000));
    assert_eq!(sounds.len(), 3);
    assert!(sounds.iter().all(|s| s.sound == SoundIdentifier::EnemyShoot && s.volume == 100));
    // each shot nudges the enemy up
    assert_eq!(e.state_shared.pos, vec2(100000, 24000));
}

#[test]
fn paired_shots_come_side_by_side() {
    let mut e = Enemy::new(
        vec2(100000, 30000),
        sprite(16000, 8000),
        1,
        EnemyDeathMethod::Vanish,
        EnemyType::Normal,
        EnemyColor::Purple,
        0,
    );
    e.state = EnemyState::Shooting(EnemyStateShooting { shots_left: 1, shoot_timer: 50 });
    let draws =
        EnemyDraws { jitter_x: 1000, jitter_y: 1000, shot_count: 1, two_bullets: true };
    let mut bullets: Vec<Bullet> = Vec::new();
    let mut wm = WaveManager::new();
    let mut sounds: Vec<SoundCue> = Vec::new();
    e.update_with(50, &draws, &mut bullets, &vec2(0, 0), &mut wm, &mut sounds);
    assert_eq!(bullets.len(), 2);
    assert_eq!(bullets[0].pos, vec2(102000, 30000));
    assert_eq!(bullets[1].pos, vec2(98000, 30000));
    assert_eq!(e.state, EnemyState::Normal(EnemyStateNormal { shoot_timer: 0 }));
}

#[test]
fn mini_charge_runs_out_into_homing() {
    let mut e = Enemy::new(
        vec2(100000, 30000),
        sprite(8000, 8000),
        1,
        EnemyDeathMethod::Vanish,
        EnemyType::Mini,
        EnemyColor::Green,
        4000,
    );
    e.state = EnemyState::Normal(EnemyStateNormal { shoot_timer: 0 });
    let mut bullets: Vec<Bullet> = Vec::new();
    let mut wm = WaveManager::new();
    let mut sounds: Vec<SoundCue> = Vec::new();
    e.update_with(1000, &still_draws(), &mut bullets, &vec2(0, 0), &mut wm, &mut sounds);
    assert_eq!(e.state_shared.charge_timer_optional, Some(3000));
    assert!(matches!(e.state, EnemyState::Normal(_)));
    e.update_with(1000, &still_draws(), &mut bullets, &vec2(0, 0), &mut wm, &mut sounds);
    // the shoot timer passed the interval, but homing comes first
    e.update_with(2000, &still_draws(), &mut bullets, &vec2(0, 0), &mut wm, &mut sounds);
    assert_eq!(e.state, EnemyState::Homing(EnemyStateHoming {}));
}

#[test]
fn homing_enemy_below_the_screen_is_lost() {
    let mut e = Enemy::new(
        vec2(100000, 129000),
        sprite(8000, 8000),
        1,
        EnemyDeathMethod::Vanish,
        EnemyType::Mini,
        EnemyColor::Green,
        4000,
    );
    e.state = EnemyState::Homing(EnemyStateHoming {});
    let mut bullets: Vec<Bullet> = Vec::new();
    let mut wm = WaveManager::new();
    wm.last_enemy_death_reason = LastEnemyDeathReason::Player;
    // half way through the sway period the sway is at its full width
    wm.internal_timer = 157;
    let mut sounds: Vec<SoundCue> = Vec::new();
    e.update_with(10, &still_draws(), &mut bullets, &vec2(50000, 114000), &mut wm, &mut sounds);
    // 60 * 1000 * 10 / 1000 to the left, 30 * 10 down
    assert_eq!(e.state_shared.pos, vec2(99400, 129300));
    assert_eq!(e.state_shared.health, 1);
    assert_eq!(wm.last_enemy_death_reason, LastEnemyDeathReason::Player);
    e.update_with(100, &still_draws(), &mut bullets, &vec2(150000, 114000), &mut wm, &mut sounds);
    assert_eq!(e.state_shared.pos, vec2(105400, 132300));
    assert_eq!(e.state_shared.health, 0);
    assert_eq!(wm.last_enemy_death_reason, LastEnemyDeathReason::Environment);
}

#[test]
fn homing_sway_follows_the_match_clock() {
    let mut e = Enemy::new(
        vec2(100000, 50000),
        sprite(8000, 8000),
        1,
        EnemyDeathMethod::Vanish,
        EnemyType::Mini,
        EnemyColor::Green,
        4000,
    );
    e.state = EnemyState::Homing(EnemyStateHoming {});
    let mut bullets: Vec<Bullet> = Vec::new();
    let mut wm = WaveManager::new();
    let mut sounds: Vec<SoundCue> = Vec::new();
    // at the start of a period the sway is zero: straight down
    e.update_with(100, &still_draws(), &mut bullets, &vec2(0, 0), &mut wm, &mut sounds);
    assert_eq!(e.state_shared.pos, vec2(100000, 53000));
    // a quarter period in, half the speed
    wm.internal_timer = 314 * 3 + 78;
    e.update_with(100, &still_draws(), &mut bullets, &vec2(0, 0), &mut wm, &mut sounds);
    // sway 2000 * 78 / 314 = 496
    assert_eq!(e.state_shared.pos, vec2(100000 - 2976, 56000));
}

#[test]
fn player_moves_within_the_screen() {
    let mut p = Player::new(vec2(100000, 114000), sprite(7000, 6000));
    let mut bullets: Vec<Bullet> = Vec::new();
    let mut sounds: Vec<SoundCue> = Vec::new();
    let left = PlayerInput { left: true, right: false, shoot: false };
    p.update(100, &left, &mut bullets, &mut sounds);
    assert_eq!(p.pos, vec2(91000, 114000));
    assert_eq!(p.collision_rect, Rect::new(91000, 114000, 7000, 6000));
    p.update(2000, &left, &mut bullets, &mut sounds);
    assert_eq!(p.pos.x, 0);
    let right = PlayerInput { left: false, right: true, shoot: false };
    p.update(5000, &right, &mut bullets, &mut sounds);
    assert_eq!(p.pos.x, 233000);
    assert!(bullets.is_empty());
}

#[test]
fn player_shoots_after_its_cooldown() {
    let mut p = Player::new(vec2(100000, 114000), sprite(7000, 6000));
    let mut bullets: Vec<Bullet> = Vec::new();
    let mut sounds: Vec<SoundCue> = Vec::new();
    let shoot = PlayerInput { left: false, right: false, shoot: true };
    p.update(500, &shoot, &mut bullets, &mut sounds);
    assert!(bullets.is_empty());
    p.update(300, &shoot, &mut bullets, &mut sounds);
    assert_eq!(bullets.len(), 1);
    assert_eq!(bullets[0].pos, vec2(103000, 110000));
    assert_eq!(bullets[0].hurt_type, BulletHurtType::Enemy);
    assert_eq!(p.shoot_timer, 0);
    assert_eq!(sounds, vec![SoundCue { sound: SoundIdentifier::PlayerShoot, volume: 100 }]);
    p.update(100, &shoot, &mut bullets, &mut sounds);
    assert_eq!(bullets.len(), 1);
}

#[test]
fn invisibility_wears_off() {
    let mut p = Player::new(vec2(100000, 114000), sprite(7000, 6000));
    p.state = PlayerState::Invisible(500);
    let mut bullets: Vec<Bullet> = Vec::new();
    let mut sounds: Vec<SoundCue> = Vec::new();
    let idle = PlayerInput { left: false, right: false, shoot: false };
    p.update(300, &idle, &mut bullets, &mut sounds);
    assert_eq!(p.state, PlayerState::Invisible(200));
    p.update(1000, &idle, &mut bullets, &mut sounds);
    assert_eq!(p.state, PlayerState::Normal);
    assert!(bullets.is_empty());
}

#[test]
fn an_invisible_ship_still_shoots() {
    let mut p = Player::new(vec2(100000, 114000), sprite(7000, 6000));
    p.state = PlayerState::Invisible(2000);
    let mut bullets: Vec<Bullet> = Vec::new();
    let mut sounds: Vec<SoundCue> = Vec::new();
    let shoot = PlayerInput { left: false, right: false, shoot: true };
    p.update(800, &shoot, &mut bullets, &mut sounds);
    assert_eq!(p.state, PlayerState::Invisible(1200));
    assert_eq!(bullets.len(), 1);
    assert_eq!(bullets[0].pos, vec2(103000, 110000));
    assert_eq!(p.shoot_timer, 0);
}

#[test]
fn player_reset_puts_the_ship_on_the_ground() {
    let res = Resources::new(sprite(7000, 6000), sprite(240000, 10000));
    let mut p = Player::new(vec2(5, 5), sprite(7000, 6000));
    p.state = PlayerState::Invisible(100);
    p.reset(&res);
    assert_eq!(p.pos, Vec2 { x: 120000, y: 114000 });
    assert_eq!(p.state, PlayerState::Normal);
}

#[test]
fn resources_pick_one_of_their_textures() {
    let mut res = Resources::new(sprite(7000, 6000), sprite(240000, 10000));
    res.load_texture(Sprite { variant: 0, w: 16000, h: 8000 }, EnemyColor::Red, EnemyType::Normal);
    res.load_texture(Sprite { variant: 1, w: 16000, h: 8000 }, EnemyColor::Red, EnemyType::Normal);
    res.load_texture(Sprite { variant: 0, w: 8000, h: 8000 }, EnemyColor::Red, EnemyType::Mini);
    assert_eq!(res.demons_normal_red.len(), 2);
    assert_eq!(res.demons_mini_red.len(), 1);
    assert!(res.demons_normal_green.is_empty());
    for _ in 0..20 {
        let s = res.rand_enemy_normal(EnemyColor::Red);
        assert!(s.variant < 2);
        assert_eq!(res.rand_enemy_mini(EnemyColor::Red), Sprite { variant: 0, w: 8000, h: 8000 });
    }
}

#[test]
fn random_colors_vary() {
    let mut seen = [false; 3];
    for _ in 0..300 {
        match EnemyColor::random() {
            EnemyColor::Purple => seen[0] = true,
            EnemyColor::Green => seen[1] = true,
            EnemyColor::Red => seen[2] = true,
        }
    }
    assert_eq!(seen, [true, true, true]);
}

#[test]
fn random_draws_stay_in_their_ranges() {
    let mut pairs = 0;
    let mut counts = [0; 5];
    for _ in 0..500 {
        let d = EnemyDraws::random();
        assert!(d.jitter_x < 2000 && d.jitter_y < 2000);
        assert!((1..5).contains(&d.shot_count));
        counts[d.shot_count as usize] += 1;
        if d.two_bullets {
            pairs += 1;
        }
    }
    assert!(pairs > 0 && pairs < 500);
    assert!(counts[1] > 0 && counts[4] > 0);
}

#[test]
fn random_texture_picks_vary() {
    let mut res = Resources::new(sprite(7000, 6000), sprite(240000, 10000));
    res.load_texture(Sprite { variant: 0, w: 16000, h: 8000 }, EnemyColor::Green, EnemyType::Normal);
    res.load_texture(Sprite { variant: 1, w: 16000, h: 8000 }, EnemyColor::Green, EnemyType::Normal);
    let mut seen = [false; 2];
    for _ in 0..200 {
        seen[res.rand_enemy_normal(EnemyColor::Green).variant as usize] = true;
    }
    assert_eq!(seen, [true, true]);
}

#[test]
fn bullet_update_with_the_longest_frame() {
    let mut b = Bullet::new(vec2(0, 20000), BulletHurtType::Enemy);
    b.update(u32::MAX);
    assert_eq!(b.pos, vec2(0, 20000 - 80 * (u32::MAX as i64)));
    assert_eq!(b.collision_rect.y, b.pos.y);
}
