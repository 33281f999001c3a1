use demottack::bullet::{Bullet, BulletHurtType};
use demottack::enemy::{
    Enemy, EnemyColor, EnemyDeathMethod, EnemyState, EnemyStateHoming, EnemyStateNormal,
    EnemyStateSpawning, EnemyType,
};
use demottack::game::{
    lives_celebrate, ChangeStatePayload, FrameInput, GameManager, GameStateCommand, GameStateGame,
    GameStateIdentifier, GameStateMenu, MenuPayload,
};
use demottack::geom::{vec2, Rect, Vec2};
use demottack::player::{PlayerInput, PlayerState};
use demottack::resources::{Resources, SoundCue, SoundIdentifier, Sprite};
use demottack::wave::{
    spawn_enemy, LastEnemyDeathReason, SpawnBlueprint, WaveManager, WaveManagerMessage,
    WaveManagerState, WaveManagerStateSpawning,
};

fn resources() -> Resources {
    let mut res = Resources::new(
        Sprite { variant: 0, w: 7000, h: 6000 },
        Sprite { variant: 0, w: 240000, h: 10000 },
    );
    for color in [EnemyColor::Purple, EnemyColor::Green, EnemyColor::Red] {
        res.load_texture(Sprite { variant: 0, w: 16000, h: 8000 }, color, EnemyType::Normal);
        res.load_texture(Sprite { variant: 1, w: 16000, h: 8000 }, color, EnemyType::Normal);
        res.load_texture(Sprite { variant: 0, w: 8000, h: 8000 }, color, EnemyType::Mini);
    }
    res
}

/// A normal enemy in its normal state, with its box where the update puts it.
fn normal_enemy(pos: Vec2, death_method: EnemyDeathMethod) -> Enemy {
    let mut e = Enemy::new(
        pos,
        Sprite { variant: 0, w: 16000, h: 8000 },
        1,
        death_method,
        EnemyType::Normal,
        EnemyColor::Green,
        0,
    );
    e.state = EnemyState::Normal(EnemyStateNormal { shoot_timer: 0 });
    e.state_shared.collision_rect = Rect::new(pos.x - 8000, pos.y, 16000, 8000);
    e
}

#[test]
fn spawn_count_ramps_up_then_saturates() {
    assert_eq!(WaveManager::get_enemy_spawn_count(0), 2);
    assert_eq!(WaveManager::get_enemy_spawn_count(10000), 3);
    assert_eq!(WaveManager::get_enemy_spawn_count(35000), 5);
    assert_eq!(WaveManager::get_enemy_spawn_count(69999), 8);
    assert_eq!(WaveManager::get_enemy_spawn_count(70000), 9);
    assert_eq!(WaveManager::get_enemy_spawn_count(u64::MAX), 9);
    let mut last = 0;
    for t in (0..200000u64).step_by(997) {
        let c = WaveManager::get_enemy_spawn_count(t);
        assert!(c >= last && c <= 9);
        last = c;
    }
}

#[test]
fn two_intervals_in_one_update_spawn_two_enemies_and_start_the_battle() {
    let res = resources();
    let mut wm = WaveManager::new();
    let mut enemies: Vec<Enemy> = Vec::new();
    let mut sounds: Vec<SoundCue> = Vec::new();
    let msg = wm.update(1001, &mut enemies, &res, &mut sounds);
    assert!(msg.is_none());
    assert_eq!(enemies.len(), 2);
    assert_eq!(wm.state, WaveManagerState::Battle);
    assert_eq!(sounds.len(), 2);
    assert!(sounds.iter().all(|s| s.sound == SoundIdentifier::Spawn && s.volume == 40));
    for e in enemies.iter() {
        assert_eq!(e.state, EnemyState::Spawning(EnemyStateSpawning { spawn_timer: 0 }));
        assert_eq!(e.state_shared.enemy_type, EnemyType::Normal);
        assert_eq!(e.state_shared.health, 1);
        assert!(e.state_shared.pos.x >= 20000 && e.state_shared.pos.x < 220000);
        assert!(e.state_shared.pos.y >= 5000 && e.state_shared.pos.y < 75000);
        assert!(matches!(
            e.state_shared.death_method,
            EnemyDeathMethod::Vanish
                | EnemyDeathMethod::SpawnChildren(1)
                | EnemyDeathMethod::SpawnChildren(2)
        ));
    }
}

#[test]
fn spawning_waits_for_the_interval() {
    let res = resources();
    let mut wm = WaveManager::new();
    let mut enemies: Vec<Enemy> = Vec::new();
    let mut sounds: Vec<SoundCue> = Vec::new();
    wm.update(500, &mut enemies, &res, &mut sounds);
    assert!(enemies.is_empty());
    assert_eq!(
        wm.state,
        WaveManagerState::Spawning(WaveManagerStateSpawning { enemies_left: 2, spawn_timer: 500 })
    );
    wm.update(1, &mut enemies, &res, &mut sounds);
    assert_eq!(enemies.len(), 1);
    assert_eq!(
        wm.state,
        WaveManagerState::Spawning(WaveManagerStateSpawning { enemies_left: 1, spawn_timer: 1 })
    );
}

#[test]
fn enemies_left_never_goes_negative() {
    let res = resources();
    let mut wm = WaveManager::new();
    wm.state =
        WaveManagerState::Spawning(WaveManagerStateSpawning { enemies_left: 1, spawn_timer: 0 });
    let mut enemies: Vec<Enemy> = Vec::new();
    let mut sounds: Vec<SoundCue> = Vec::new();
    wm.update(5000, &mut enemies, &res, &mut sounds);
    assert_eq!(enemies.len(), 1);
    assert_eq!(wm.state, WaveManagerState::Battle);
}

#[test]
fn battle_ends_only_when_no_enemy_is_left() {
    let res = resources();
    let mut wm = WaveManager::new();
    wm.state = WaveManagerState::Battle;
    let mut enemies = vec![normal_enemy(vec2(100000, 30000), EnemyDeathMethod::Vanish)];
    let mut sounds: Vec<SoundCue> = Vec::new();
    assert!(wm.update(100, &mut enemies, &res, &mut sounds).is_none());
    assert_eq!(wm.state, WaveManagerState::Battle);
    enemies.clear();
    let msg = wm.update(35000 - 100, &mut enemies, &res, &mut sounds);
    assert_eq!(msg, Some(WaveManagerMessage::LevelCleared));
    assert_eq!(
        wm.state,
        WaveManagerState::Spawning(WaveManagerStateSpawning { enemies_left: 5, spawn_timer: 0 })
    );
    assert_eq!(wm.internal_timer, 35000);
}

#[test]
fn wave_manager_reset_restarts_the_first_wave() {
    let mut wm = WaveManager::new();
    wm.state = WaveManagerState::Battle;
    wm.internal_timer = 99;
    wm.last_enemy_death_reason = LastEnemyDeathReason::Player;
    wm.reset();
    assert_eq!(
        wm.state,
        WaveManagerState::Spawning(WaveManagerStateSpawning { enemies_left: 2, spawn_timer: 0 })
    );
    assert_eq!(wm.internal_timer, 0);
    assert_eq!(wm.last_enemy_death_reason, LastEnemyDeathReason::Environment);
}

#[test]
fn spawn_enemy_makes_a_mini_where_asked() {
    let res = resources();
    let mut enemies: Vec<Enemy> = Vec::new();
    spawn_enemy(&mut enemies, &res, SpawnBlueprint::Mini(vec2(1234, 5678)), EnemyColor::Red);
    let e = enemies[0];
    assert_eq!(e.state_shared.pos, vec2(1234, 5678));
    assert_eq!(e.state_shared.enemy_type, EnemyType::Mini);
    assert_eq!(e.state_shared.enemy_color, EnemyColor::Red);
    assert_eq!(e.state_shared.death_method, EnemyDeathMethod::Vanish);
    let c = e.state_shared.charge_timer_optional.unwrap();
    assert!((4000..10000).contains(&c));
}

#[test]
fn bullet_kills_a_one_hit_enemy() {
    let res = resources();
    let mut g = GameStateGame::new(&res);
    g.player_score = 40;
    g.enemies.push(normal_enemy(vec2(50000, 30000), EnemyDeathMethod::Vanish));
    g.bullets.push(Bullet::new(vec2(45000, 32000), BulletHurtType::Enemy));
    let mut sounds: Vec<SoundCue> = Vec::new();
    let deaths = g.resolve_enemy_hits(&mut sounds);
    assert_eq!(g.enemies[0].state_shared.health, 0);
    assert!(g.bullets[0].is_kill);
    assert_eq!(deaths.len(), 1);
    assert_eq!(g.wave_manager.last_enemy_death_reason, LastEnemyDeathReason::Player);

    let mut g2 = GameStateGame::new(&res);
    g2.player_score = 40;
    g2.enemies.push(normal_enemy(vec2(50000, 30000), EnemyDeathMethod::Vanish));
    g2.bullets.push(Bullet::new(vec2(45000, 32000), BulletHurtType::Enemy));
    let r = g2.resolution_pass(&res, &mut sounds);
    assert!(r.is_none());
    assert_eq!(g2.player_score, 140);
    assert!(g2.enemies.is_empty());
    assert!(g2.bullets.is_empty());
}

#[test]
fn a_bullet_hurts_only_the_first_enemy_it_touches() {
    let res = resources();
    let mut g = GameStateGame::new(&res);
    g.enemies.push(normal_enemy(vec2(50000, 30000), EnemyDeathMethod::Vanish));
    g.enemies.push(normal_enemy(vec2(52000, 30000), EnemyDeathMethod::Vanish));
    g.bullets.push(Bullet::new(vec2(50000, 32000), BulletHurtType::Enemy));
    let mut sounds: Vec<SoundCue> = Vec::new();
    g.resolution_pass(&res, &mut sounds);
    assert_eq!(g.enemies.len(), 1);
    assert_eq!(g.enemies[0].state_shared.pos, vec2(52000, 30000));
    assert_eq!(g.player_score, 100);
    // a second bullet finishes the other one
    g.bullets.push(Bullet::new(vec2(50000, 32000), BulletHurtType::Enemy));
    g.bullets.push(Bullet::new(vec2(50000, 32000), BulletHurtType::Enemy));
    g.resolution_pass(&res, &mut sounds);
    assert!(g.enemies.is_empty());
    assert_eq!(g.bullets.len(), 1);
    assert_eq!(g.player_score, 200);
}

#[test]
fn last_life_lost_returns_to_the_menu_with_the_score() {
    let res = resources();
    let mut g = GameStateGame::new(&res);
    g.player_lives = 1;
    g.player_score = 250;
    assert_eq!(g.player.state, PlayerState::Normal);
    g.bullets.push(Bullet::new(vec2(121000, 115000), BulletHurtType::Player));
    let mut sounds: Vec<SoundCue> = Vec::new();
    let r = g.resolution_pass(&res, &mut sounds);
    assert_eq!(
        r,
        Some(GameStateCommand::ChangeState(
            GameStateIdentifier::Menu,
            Some(ChangeStatePayload::MenuPayload(MenuPayload { score: 250 }))
        ))
    );
    assert_eq!(g.player_lives, 0);
    // the bullet that took the last life is used up too
    assert!(g.bullets.is_empty());
}

#[test]
fn a_hit_costs_one_life_and_makes_the_ship_invisible() {
    let res = resources();
    let mut g = GameStateGame::new(&res);
    g.bullets.push(Bullet::new(vec2(121000, 115000), BulletHurtType::Player));
    g.bullets.push(Bullet::new(vec2(122000, 115000), BulletHurtType::Player));
    let mut sounds: Vec<SoundCue> = Vec::new();
    let r = g.resolution_pass(&res, &mut sounds);
    assert!(r.is_none());
    assert_eq!(g.player_lives, 2);
    assert_eq!(g.player.state, PlayerState::Invisible(2000));
    assert_eq!(g.bullets.len(), 1);
    assert_eq!(g.bullets[0].pos, vec2(122000, 115000));
    assert_eq!(sounds, vec![SoundCue { sound: SoundIdentifier::PlayerOuch, volume: 100 }]);
    // invisible: the other bullet does nothing
    g.resolution_pass(&res, &mut sounds);
    assert_eq!(g.player_lives, 2);
    assert_eq!(g.bullets.len(), 1);
}

#[test]
fn a_homing_enemy_that_rams_the_ship_dies_with_it() {
    let res = resources();
    let mut g = GameStateGame::new(&res);
    let mut e = normal_enemy(vec2(121000, 112000), EnemyDeathMethod::Vanish);
    e.state = EnemyState::Homing(EnemyStateHoming {});
    g.enemies.push(e);
    // a bullet on the same enemy finds it dead already
    g.bullets.push(Bullet::new(vec2(121000, 113000), BulletHurtType::Enemy));
    let mut sounds: Vec<SoundCue> = Vec::new();
    let r = g.resolution_pass(&res, &mut sounds);
    assert!(r.is_none());
    assert_eq!(g.player_lives, 2);
    assert_eq!(g.player.state, PlayerState::Invisible(2000));
    assert!(g.enemies.is_empty());
    assert_eq!(g.player_score, 0);
    assert_eq!(g.bullets.len(), 1);
}

#[test]
fn a_death_with_three_children_leaves_three_minis() {
    let res = resources();
    let mut g = GameStateGame::new(&res);
    g.enemies.push(normal_enemy(vec2(50000, 30000), EnemyDeathMethod::SpawnChildren(3)));
    g.bullets.push(Bullet::new(vec2(45000, 32000), BulletHurtType::Enemy));
    let mut sounds: Vec<SoundCue> = Vec::new();
    let r = g.resolution_pass(&res, &mut sounds);
    assert!(r.is_none());
    assert_eq!(g.player_score, 100);
    assert_eq!(g.enemies.len(), 3);
    let xs: Vec<i64> = g.enemies.iter().map(|e| e.state_shared.pos.x).collect();
    assert_eq!(xs, vec![50000, 56666, 63333]);
    for e in g.enemies.iter() {
        assert_eq!(e.state_shared.pos.y, 30000);
        assert_eq!(e.state, EnemyState::Spawning(EnemyStateSpawning { spawn_timer: 0 }));
        assert_eq!(e.state_shared.enemy_type, EnemyType::Mini);
        assert_eq!(e.state_shared.enemy_color, EnemyColor::Green);
        let c = e.state_shared.charge_timer_optional.unwrap();
        assert!((4000..10000).contains(&c));
    }
    assert!(sounds.contains(&SoundCue { sound: SoundIdentifier::SpawnMini, volume: 100 }));
    assert!(sounds.contains(&SoundCue { sound: SoundIdentifier::EnemyOuch, volume: 100 }));
}

#[test]
fn a_quiet_frame_resolves_to_no_change() {
    let res = resources();
    let mut g = GameStateGame::new(&res);
    g.player_score = 70;
    g.enemies.push(normal_enemy(vec2(50000, 30000), EnemyDeathMethod::SpawnChildren(2)));
    g.bullets.push(Bullet::new(vec2(150000, 32000), BulletHurtType::Enemy));
    g.bullets.push(Bullet::new(vec2(20000, 50000), BulletHurtType::Player));
    let mut sounds: Vec<SoundCue> = Vec::new();
    for _ in 0..2 {
        let r = g.resolution_pass(&res, &mut sounds);
        assert!(r.is_none());
        assert_eq!(g.player_score, 70);
        assert_eq!(g.player_lives, 3);
        assert_eq!(g.enemies.len(), 1);
        assert_eq!(g.enemies[0].state_shared.health, 1);
        assert_eq!(g.bullets.len(), 2);
        assert!(sounds.is_empty());
    }
}

#[test]
fn far_away_bullets_are_dropped() {
    let res = resources();
    let mut g = GameStateGame::new(&res);
    g.bullets.push(Bullet::new(vec2(0, -1_500_000_000_000), BulletHurtType::Enemy));
    g.bullets.push(Bullet::new(vec2(0, 0), BulletHurtType::Enemy));
    g.collect_garbage();
    assert_eq!(g.bullets.len(), 1);
    assert_eq!(g.bullets[0].pos, vec2(0, 0));
}

#[test]
fn clearing_a_wave_gives_a_life_and_a_bonus() {
    let res = resources();
    let mut g = GameStateGame::new(&res);
    let mut sounds: Vec<SoundCue> = Vec::new();
    g.level_cleared(&mut sounds);
    assert_eq!(g.player_lives, 4);
    assert_eq!(g.player_score, 750);
    g.wave_manager.last_enemy_death_reason = LastEnemyDeathReason::Player;
    g.player_lives = 7;
    g.level_cleared(&mut sounds);
    assert_eq!(g.player_lives, 7);
    assert_eq!(g.player_score, 1750);
    assert_eq!(sounds[0], SoundCue { sound: SoundIdentifier::WaveCleared, volume: 60 });
}

#[test]
fn a_frame_runs_the_wave_the_enemies_the_bullets_and_the_ship() {
    let res = resources();
    let mut g = GameStateGame::new(&res);
    let mut sounds: Vec<SoundCue> = Vec::new();
    let input = PlayerInput { left: false, right: false, shoot: true };
    let r = g.update(1001, &input, &res, &mut sounds);
    assert!(r.is_none());
    assert_eq!(g.enemies.len(), 2);
    assert_eq!(g.wave_manager.state, WaveManagerState::Battle);
    assert_eq!(g.bullets.len(), 1);
    assert_eq!(g.bullets[0].pos, vec2(123000, 110000));
    g.update(100, &input, &res, &mut sounds);
    assert_eq!(g.bullets[0].pos, vec2(123000, 102000));
}

#[test]
fn entering_a_match_resets_it() {
    let res = resources();
    let mut g = GameStateGame::new(&res);
    g.player_score = 900;
    g.player_lives = 1;
    g.bullets.push(Bullet::new(vec2(0, 0), BulletHurtType::Enemy));
    g.enemies.push(normal_enemy(vec2(50000, 30000), EnemyDeathMethod::Vanish));
    g.on_enter(&res, None);
    assert_eq!(g.player_score, 0);
    assert_eq!(g.player_lives, 3);
    assert!(g.bullets.is_empty());
    assert!(g.enemies.is_empty());
}

#[test]
fn the_menu_starts_a_match_and_keeps_the_last_score() {
    let mut m = GameStateMenu::new();
    assert_eq!(m.update(16, false), None);
    assert_eq!(
        m.update(16, true),
        Some(GameStateCommand::ChangeState(GameStateIdentifier::Game, None))
    );
    m.on_enter(Some(ChangeStatePayload::MenuPayload(MenuPayload { score: 420 })));
    assert_eq!(m.last_score_optional, Some(420));
    m.on_enter(None);
    assert_eq!(m.last_score_optional, Some(420));
}

#[test]
fn the_manager_switches_screens() {
    let mut gm = GameManager::new(resources());
    gm.game.enemies.push(normal_enemy(vec2(50000, 30000), EnemyDeathMethod::Vanish));
    let mut sounds: Vec<SoundCue> = Vec::new();
    let idle = FrameInput { left: false, right: false, shoot: false, start: false };
    gm.update(16, &idle, &mut sounds);
    assert_eq!(gm.current_state_identifier, GameStateIdentifier::Menu);
    let start = FrameInput { start: true, ..idle };
    gm.update(16, &start, &mut sounds);
    assert_eq!(gm.current_state_identifier, GameStateIdentifier::Game);
    assert!(gm.game.enemies.is_empty());
    assert_eq!(gm.game.player.pos, vec2(120000, 114000));
    gm.game.player_lives = 1;
    gm.game.player_score = 321;
    gm.game.bullets.push(Bullet::new(vec2(121000, 115000), BulletHurtType::Player));
    gm.update(0, &idle, &mut sounds);
    assert_eq!(gm.current_state_identifier, GameStateIdentifier::Menu);
    assert_eq!(gm.menu.last_score_optional, Some(321));
}

#[test]
fn lives_celebrate_while_spawning_after_a_kill() {
    let mut wm = WaveManager::new();
    assert!(!lives_celebrate(&wm));
    wm.last_enemy_death_reason = LastEnemyDeathReason::Player;
    assert!(lives_celebrate(&wm));
    wm.state = WaveManagerState::Battle;
    assert!(!lives_celebrate(&wm));
}

#[test]
fn an_empty_frame_resolves_to_nothing() {
    let res = resources();
    let mut g = GameStateGame::new(&res);
    let mut sounds: Vec<SoundCue> = Vec::new();
    assert!(g.resolution_pass(&res, &mut sounds).is_none());
    assert!(g.resolve_enemy_hits(&mut sounds).is_empty());
    assert_eq!(g.player_score, 0);
    assert_eq!(g.player_lives, 3);
    assert!(sounds.is_empty());
}

#[test]
fn normal_spawns_vary_in_place() {
    let res = resources();
    let mut enemies: Vec<Enemy> = Vec::new();
    for _ in 0..50 {
        spawn_enemy(&mut enemies, &res, SpawnBlueprint::Normal, EnemyColor::Purple);
    }
    let first = enemies[0].state_shared.pos;
    assert!(enemies.iter().any(|e| e.state_shared.pos != first));
    assert!(enemies.iter().any(|e| e.state_shared.death_method == EnemyDeathMethod::Vanish));
    assert!(enemies.iter().any(|e| e.state_shared.death_method != EnemyDeathMethod::Vanish));
}

#[test]
fn losing_the_last_life_to_a_homing_enemy_ends_the_match() {
    let res = resources();
    let mut g = GameStateGame::new(&res);
    g.player_lives = 1;
    g.player_score = 60;
    let mut e = normal_enemy(vec2(121000, 112000), EnemyDeathMethod::Vanish);
    e.state = EnemyState::Homing(EnemyStateHoming {});
    g.enemies.push(e);
    let mut sounds: Vec<SoundCue> = Vec::new();
    let r = g.resolution_pass(&res, &mut sounds);
    assert_eq!(
        r,
        Some(GameStateCommand::ChangeState(
            GameStateIdentifier::Menu,
            Some(ChangeStatePayload::MenuPayload(MenuPayload { score: 60 }))
        ))
    );
    assert_eq!(g.player_lives, 0);
    // the enemy that rammed the ship died with it
    assert!(g.enemies.is_empty());
}

#[test]
fn a_frame_where_a_bullet_kills_an_enemy() {
    let res = resources();
    let mut g = GameStateGame::new(&res);
    g.wave_manager.state = WaveManagerState::Battle;
    g.player_score = 10;
    let mut e = normal_enemy(vec2(50000, 30000), EnemyDeathMethod::Vanish);
    e.state = EnemyState::Spawning(EnemyStateSpawning { spawn_timer: 0 });
    // a spawning enemy keeps its box where it was made
    e.state_shared.collision_rect = Rect::new(42000, 30000, 16000, 8000);
    g.enemies.push(e);
    g.bullets.push(Bullet::new(vec2(45000, 36000), BulletHurtType::Enemy));
    let mut sounds: Vec<SoundCue> = Vec::new();
    let idle = PlayerInput { left: false, right: false, shoot: false };
    // the bullet climbs 80 * 10 into the enemy's box
    let r = g.update(10, &idle, &res, &mut sounds);
    assert!(r.is_none());
    assert_eq!(g.player_score, 110);
    assert!(g.enemies.is_empty());
    assert!(g.bullets.is_empty());
    assert_eq!(g.wave_manager.last_enemy_death_reason, LastEnemyDeathReason::Player);
}
