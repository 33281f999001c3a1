use vstd::prelude::*;

use crate::bullet::{in_world, pos_in_reach, Bullet, BulletHurtType};
use crate::constants::{
    GAME_CENTER_X, GAME_SIZE_Y, PLAYER_LIVES_MAX, PLAYER_LIVES_START, PLAYER_TIME_INVISIBLE,
    SCORE_KILL_ALL, SCORE_MINI, SCORE_NORMAL, SCORE_SURVIVED_ALL, ENEMY_CHILD_SPREAD,
};
use crate::enemy::{
    enemy_after, lost_below, shots, Enemy, EnemyColor, EnemyDeathMethod, EnemyDraws, EnemyState,
    EnemyType,
};
use crate::geom::{rects_overlap, vec2, Vec2};
use crate::player::{player_spawn_pos, Player, PlayerCommand, PlayerInput, PlayerState};
use crate::resources::{cue, sound_cue, Resources, SoundCue, SoundIdentifier};
use crate::wave::{
    spawn_enemy, spawned_from, LastEnemyDeathReason, SpawnBlueprint, WaveManager,
    WaveManagerMessage,
};

verus! {

/// What the menu receives when a match ends: the final score.
#[derive(Clone, Copy, Debug, PartialEq, Eq, Structural)]
pub struct MenuPayload {
    pub score: i32,
}

/// Data handed to the state that is entered.
#[derive(Clone, Copy, Debug, PartialEq, Eq, Structural)]
pub enum ChangeStatePayload {
    MenuPayload(MenuPayload),
}

#[derive(Clone, Copy, Debug, PartialEq, Eq, Structural)]
pub enum GameStateCommand {
    ChangeState(GameStateIdentifier, Option<ChangeStatePayload>),
}

#[derive(Clone, Copy, Debug, PartialEq, Eq, Structural, Hash)]
pub enum GameStateIdentifier {
    Menu,
    Game,
}

/// An enemy that died in the bullet scan, kept until the scan is over.
#[derive(Clone, Copy, Debug, PartialEq, Eq, Structural)]
pub struct DeathRecord {
    pub pos: Vec2,
    pub death_method: EnemyDeathMethod,
    pub enemy_type: EnemyType,
    pub enemy_color: EnemyColor,
}

/// A match in progress.
pub struct GameStateGame {
    pub wave_manager: WaveManager,
    pub player_score: i32,
    pub player_lives: i32,
    pub bullets: Vec<Bullet>,
    pub enemies: Vec<Enemy>,
    pub player: Player,
}

/// A match as it starts: the first wave about to spawn, the clock at zero,
/// the ship on the ground in its normal state with its gun ready to cool
/// down, no score, the starting lives, and no bullet or enemy.
pub open spec fn fresh_match(g: GameStateGame, resources: &Resources) -> bool {
    &&& g.wave_manager.state == WaveManager::initial_state()
    &&& g.wave_manager.internal_timer == 0
    &&& g.wave_manager.last_enemy_death_reason == LastEnemyDeathReason::Environment
    &&& g.player.pos == player_spawn_pos(resources)
    &&& g.player.state == PlayerState::Normal
    &&& g.player.shoot_timer == 0
    &&& g.player_score == 0
    &&& g.player_lives == PLAYER_LIVES_START
    &&& g.bullets@.len() == 0
    &&& g.enemies@.len() == 0
}

/// The command that ends a match with `score`.
pub open spec fn to_menu(score: i32) -> GameStateCommand {
    GameStateCommand::ChangeState(
        GameStateIdentifier::Menu,
        Some(ChangeStatePayload::MenuPayload(MenuPayload { score })),
    )
}

/// `a + b`, stopping at the largest `i32`.
pub open spec fn score_add(a: i32, b: i32) -> i32 {
    if a + b > i32::MAX {
        i32::MAX
    } else {
        (a + b) as i32
    }
}

/// One life less, never below zero.
pub open spec fn life_lost(lives: i32) -> i32 {
    if lives <= 0 {
        0
    } else {
        (lives - 1) as i32
    }
}

pub open spec fn bullets_ok(bs: Seq<Bullet>) -> bool {
    forall|i: int| 0 <= i < bs.len() ==> (#[trigger] bs[i]).wf()
}

pub open spec fn enemies_ok(es: Seq<Enemy>) -> bool {
    forall|i: int| 0 <= i < es.len() ==> (#[trigger] es[i]).wf()
}

pub open spec fn enemies_in_world(es: Seq<Enemy>) -> bool {
    forall|i: int| 0 <= i < es.len() ==> in_world((#[trigger] es[i]).state_shared.pos)
}

/// A bullet that hurts the player touches the player's box.
pub open spec fn hits_player(b: Bullet, p: Player) -> bool {
    b.hurt_type == BulletHurtType::Player && rects_overlap(b.collision_rect, p.collision_rect)
}

/// A homing enemy touches the player's box.
pub open spec fn rams_player(e: Enemy, p: Player) -> bool {
    e.is_homing() && rects_overlap(e.state_shared.collision_rect, p.collision_rect)
}

/// The bullet is kept at the end of the frame.
pub open spec fn bullet_kept(b: Bullet) -> bool {
    !b.is_kill && in_world(b.pos)
}

/// The enemy is kept at the end of the frame.
pub open spec fn enemy_kept(e: Enemy) -> bool {
    e.state_shared.health > 0 && in_world(e.state_shared.pos)
}

/// The bullets of `s` that are kept at the end of the frame, in order.
pub open spec fn kept_bullets(s: Seq<Bullet>) -> Seq<Bullet>
    decreases s.len(),
{
    if s.len() == 0 {
        s
    } else if bullet_kept(s.last()) {
        kept_bullets(s.drop_last()).push(s.last())
    } else {
        kept_bullets(s.drop_last())
    }
}

/// The enemies of `s` that are kept at the end of the frame, in order.
pub open spec fn kept_enemies(s: Seq<Enemy>) -> Seq<Enemy>
    decreases s.len(),
{
    if s.len() == 0 {
        s
    } else if enemy_kept(s.last()) {
        kept_enemies(s.drop_last()).push(s.last())
    } else {
        kept_enemies(s.drop_last())
    }
}

/// Adds to a score, stopping at the largest `i32`.
pub fn saturating_score(a: i32, b: i32) -> (r: i32)
    requires
        b >= 0,
    ensures
        r == score_add(a, b),
{
    if a > i32::MAX - b {
        i32::MAX
    } else {
        a + b
    }
}

impl GameStateGame {
    /// Holds between frames.
    pub open spec fn wf(&self) -> bool {
        &&& self.wave_manager.wf()
        &&& self.player.wf()
        &&& 0 <= self.player_lives <= PLAYER_LIVES_MAX
        &&& self.player_score >= 0
        &&& bullets_ok(self.bullets@)
        &&& enemies_ok(self.enemies@)
        &&& enemies_in_world(self.enemies@)
    }

    pub fn new(resources: &Resources) -> (r: GameStateGame)
        requires
            resources.wf(),
        ensures
            fresh_match(r, resources),
            r.wf(),
            r.wave_manager.state == WaveManager::initial_state(),
            r.wave_manager.last_enemy_death_reason == LastEnemyDeathReason::Environment,
            r.wave_manager.internal_timer == 0,
            r.player.pos == player_spawn_pos(resources),
            r.player.sprite == resources.player,
            r.player.shoot_timer == 0,
            r.player.state == PlayerState::Normal,
            r.player_score == 0,
            r.player_lives == PLAYER_LIVES_START,
            r.bullets@.len() == 0,
            r.enemies@.len() == 0,
    {
        let player_spawn_y = GAME_SIZE_Y - resources.ground_bg.h - resources.player.h;
        let player_pos = vec2(GAME_CENTER_X, player_spawn_y);
        let player = Player::new(player_pos, resources.player);
        GameStateGame {
            wave_manager: WaveManager::new(),
            player_score: 0,
            player_lives: PLAYER_LIVES_START,
            bullets: Vec::new(),
            enemies: Vec::new(),
            player,
        }
    }

    /// Starts a new match.
    pub fn on_enter(&mut self, resources: &Resources, payload_optional: Option<ChangeStatePayload>)
        requires
            old(self).player.wf(),
            resources.wf(),
        ensures
            fresh_match(*final(self), resources),
            final(self).wf(),
            final(self).wave_manager.state == WaveManager::initial_state(),
            final(self).wave_manager.internal_timer == 0,
            final(self).wave_manager.last_enemy_death_reason == LastEnemyDeathReason::Environment,
            final(self).player.pos == player_spawn_pos(resources),
            final(self).player.shoot_timer == 0,
            final(self).player.sprite == old(self).player.sprite,
            final(self).player.state == PlayerState::Normal,
            final(self).player_score == 0,
            final(self).player_lives == PLAYER_LIVES_START,
            final(self).bullets@.len() == 0,
            final(self).enemies@.len() == 0,
    {
        self.wave_manager.reset();
        self.player.reset(resources);
        self.player_score = 0;
        self.player_lives = PLAYER_LIVES_START;
        self.enemies.clear();
        self.bullets.clear();
    }

    /// A cleared wave gives a life, up to the maximum, and a bonus that is
    /// larger when the last enemy was shot than when it got away.
    pub fn level_cleared(&mut self, sounds: &mut Vec<SoundCue>)
        requires
            old(self).player_lives <= PLAYER_LIVES_MAX,
        ensures
            cleared_step(*old(self), *final(self)),
            final(self).player_score >= old(self).player_score,
            final(self).player_lives == if old(self).player_lives + 1 > PLAYER_LIVES_MAX {
                PLAYER_LIVES_MAX as int
            } else {
                old(self).player_lives + 1
            },
            final(self).player_score == score_add(
                old(self).player_score,
                match old(self).wave_manager.last_enemy_death_reason {
                    LastEnemyDeathReason::Environment => SCORE_SURVIVED_ALL,
                    LastEnemyDeathReason::Player => SCORE_KILL_ALL,
                },
            ),
            final(sounds)@ == old(sounds)@.push(cue(SoundIdentifier::WaveCleared, 60)),
            final(self).wave_manager == old(self).wave_manager,
            final(self).player == old(self).player,
            final(self).bullets@ == old(self).bullets@,
            final(self).enemies@ == old(self).enemies@,
    {
        self.player_lives = self.player_lives + 1;
        if self.player_lives > PLAYER_LIVES_MAX {
            self.player_lives = PLAYER_LIVES_MAX;
        }
        let bonus = match self.wave_manager.last_enemy_death_reason {
            LastEnemyDeathReason::Environment => SCORE_SURVIVED_ALL,
            LastEnemyDeathReason::Player => SCORE_KILL_ALL,
        };
        sounds.push(sound_cue(SoundIdentifier::WaveCleared, 60));
        self.player_score = saturating_score(self.player_score, bonus);
    }

    /// First step of the resolution pass: the first bullet that hurts the
    /// player and touches the ship, while the ship is in its normal state,
    /// costs a life, makes the ship invisible and is used up. At no life left
    /// the match ends with the score.
    pub fn resolve_player_hits(&mut self, sounds: &mut Vec<SoundCue>) -> (r: Option<GameStateCommand>)
        requires
            old(self).player.wf(),
            old(self).player_lives >= 0,
        ensures
            player_hits_step(*old(self), *final(self), r),
            final(self).player.wf(),
            0 <= final(self).player_lives <= old(self).player_lives,
            r is Some ==> final(self).player_lives == 0 && r == Some(
                to_menu(final(self).player_score),
            ),
            final(self).bullets@.len() == old(self).bullets@.len(),
            forall|k: int|
                0 <= k < old(self).bullets@.len() ==> bullet_shape(#[trigger] final(self).bullets@[k])
                    == bullet_shape(old(self).bullets@[k]),
            forall|k: int|
                0 <= k < old(self).bullets@.len() ==> (#[trigger] final(self).bullets@[k]).hurt_type
                    == old(self).bullets@[k].hurt_type && final(self).bullets@[k].collision_rect
                    == old(self).bullets@[k].collision_rect && final(self).bullets@[k].pos
                    == old(self).bullets@[k].pos,
            final(self).player.is_normal() ==> forall|i: int|
                0 <= i < old(self).bullets@.len() ==> !hits_player(
                    #[trigger] old(self).bullets@[i],
                    old(self).player,
                ),
            final(self).wave_manager == old(self).wave_manager,
            final(self).enemies@ == old(self).enemies@,
            final(self).player_score == old(self).player_score,
            final(self).player.pos == old(self).player.pos,
            final(self).player.collision_rect == old(self).player.collision_rect,
            final(self).player.sprite == old(self).player.sprite,
            final(self).player.shoot_timer == old(self).player.shoot_timer,
            (!old(self).player.is_normal() || forall|i: int|
                0 <= i < old(self).bullets@.len() ==> !hits_player(
                    #[trigger] old(self).bullets@[i],
                    old(self).player,
                )) ==> {
                &&& r is None
                &&& final(self).bullets@ == old(self).bullets@
                &&& final(self).player_lives == old(self).player_lives
                &&& final(self).player.state == old(self).player.state
                &&& final(sounds)@ == old(sounds)@
            },
            forall|i: int|
                0 <= i < old(self).bullets@.len() && old(self).player.is_normal() && hits_player(
                    #[trigger] old(self).bullets@[i],
                    old(self).player,
                ) && (forall|j: int|
                    0 <= j < i ==> !hits_player(#[trigger] old(self).bullets@[j], old(self).player))
                    ==> {
                    &&& final(self).player_lives == life_lost(old(self).player_lives)
                    &&& final(self).player.state == PlayerState::Invisible(PLAYER_TIME_INVISIBLE)
                    &&& final(sounds)@ == old(sounds)@.push(cue(SoundIdentifier::PlayerOuch, 100))
                    &&& final(self).bullets@ == old(self).bullets@.update(
                        i,
                        Bullet { is_kill: true, ..old(self).bullets@[i] },
                    )
                    &&& r == if final(self).player_lives <= 0 {
                        Some(to_menu(old(self).player_score))
                    } else {
                        None
                    }
                },
    {
        let n = self.bullets.len();
        let mut i: usize = 0;
        while i < n
            invariant
                n == self.bullets@.len(),
                self.bullets@ == old(self).bullets@,
                old(self).player.wf(),
                self.player == old(self).player,
                self.player_lives == old(self).player_lives,
                old(self).player_lives >= 0,
                self.player_score == old(self).player_score,
                self.wave_manager == old(self).wave_manager,
                self.enemies@ == old(self).enemies@,
                sounds@ == old(sounds)@,
                0 <= i <= n,
                forall|j: int|
                    0 <= j < i ==> !(old(self).player.is_normal() && hits_player(
                        #[trigger] old(self).bullets@[j],
                        old(self).player,
                    )),
            decreases n - i,
        {
            let bullet = self.bullets[i];
            let is_player_bullet = match bullet.hurt_type {
                BulletHurtType::Player => true,
                BulletHurtType::Enemy => false,
            };
            if is_player_bullet && bullet.overlaps(&self.player.collision_rect) {
                let is_normal = match self.player.state {
                    PlayerState::Normal => true,
                    PlayerState::Invisible(_) => false,
                };
                if is_normal {
                    if self.player_lives > 0 {
                        self.player_lives = self.player_lives - 1;
                    }
                    sounds.push(sound_cue(SoundIdentifier::PlayerOuch, 100));
                    self.player.process_command_optional(
                        Some(PlayerCommand::ChangeState(PlayerState::Invisible(PLAYER_TIME_INVISIBLE))),
                    );
                    proof {
                        let ob = old(self).bullets@;
                        let op = old(self).player;
                        assert(hits_player(ob[i as int], op));
                        assert forall|k: int|
                            0 <= k < ob.len() && op.is_normal() && hits_player(#[trigger] ob[k], op)
                                && (forall|j: int| 0 <= j < k ==> !hits_player(#[trigger] ob[j], op))
                            implies k == i by {
                            if k > i {
                                assert(!hits_player(ob[i as int], op));
                            }
                        }
                    }
                    let mut used = bullet;
                    used.is_kill = true;
                    self.bullets.set(i, used);
                    assert forall|k: int| 0 <= k < old(self).bullets@.len() implies bullet_shape(
                        #[trigger] self.bullets@[k],
                    ) == bullet_shape(old(self).bullets@[k]) && self.bullets@[k].hurt_type
                        == old(self).bullets@[k].hurt_type && self.bullets@[k].collision_rect
                        == old(self).bullets@[k].collision_rect && self.bullets@[k].pos
                        == old(self).bullets@[k].pos by {
                        if k != i {
                            assert(self.bullets@[k] == old(self).bullets@[k]);
                        }
                    }
                    if self.player_lives <= 0 {
                        return Some(
                            GameStateCommand::ChangeState(
                                GameStateIdentifier::Menu,
                                Some(
                                    ChangeStatePayload::MenuPayload(
                                        MenuPayload { score: self.player_score },
                                    ),
                                ),
                            ),
                        );
                    }
                    return None;
                }
            }
            i = i + 1;
        }
        None
    }

    /// Second step of the resolution pass: a homing enemy that rams the ship
    /// while it is not invisible costs a life, makes the ship invisible and
    /// dies. Once invisible, the ship ignores the enemies that follow.
    pub fn resolve_homing_hits(&mut self, sounds: &mut Vec<SoundCue>)
        requires
            old(self).player.wf(),
            old(self).player_lives >= 0,
            enemies_ok(old(self).enemies@),
        ensures
            homing_step(*old(self), *final(self)),
            final(self).player.wf(),
            0 <= final(self).player_lives <= old(self).player_lives,
            enemies_ok(final(self).enemies@),
            forall|k: int|
                0 <= k < old(self).enemies@.len() ==> (#[trigger] final(self).enemies@[k]).state_shared.pos
                    == old(self).enemies@[k].state_shared.pos,
            forall|k: int|
                0 <= k < old(self).enemies@.len() ==> #[trigger] final(self).enemies@[k]
                    == Enemy::with_health(
                    old(self).enemies@[k],
                    final(self).enemies@[k].state_shared.health,
                ),
            final(self).player.is_normal() ==> old(self).player.is_normal() && forall|i: int|
                0 <= i < old(self).enemies@.len() ==> !rams_player(
                    #[trigger] old(self).enemies@[i],
                    old(self).player,
                ),
            final(self).wave_manager == old(self).wave_manager,
            final(self).bullets@ == old(self).bullets@,
            final(self).player_score == old(self).player_score,
            final(self).player.pos == old(self).player.pos,
            final(self).player.collision_rect == old(self).player.collision_rect,
            final(self).player.sprite == old(self).player.sprite,
            final(self).player.shoot_timer == old(self).player.shoot_timer,
            final(self).enemies@.len() == old(self).enemies@.len(),
            (!old(self).player.is_normal() || forall|i: int|
                0 <= i < old(self).enemies@.len() ==> !rams_player(
                    #[trigger] old(self).enemies@[i],
                    old(self).player,
                )) ==> {
                &&& final(self).enemies@ == old(self).enemies@
                &&& final(self).player_lives == old(self).player_lives
                &&& final(self).player.state == old(self).player.state
                &&& final(sounds)@ == old(sounds)@
            },
            forall|i: int|
                0 <= i < old(self).enemies@.len() && old(self).player.is_normal() && rams_player(
                    #[trigger] old(self).enemies@[i],
                    old(self).player,
                ) && (forall|j: int|
                    0 <= j < i ==> !rams_player(#[trigger] old(self).enemies@[j], old(self).player))
                    ==> {
                    &&& final(self).player_lives == life_lost(old(self).player_lives)
                    &&& final(self).player.state == PlayerState::Invisible(PLAYER_TIME_INVISIBLE)
                    &&& final(sounds)@ == old(sounds)@.push(cue(SoundIdentifier::PlayerOuch, 100))
                    &&& final(self).enemies@ == old(self).enemies@.update(
                        i,
                        Enemy::with_health(old(self).enemies@[i], 0),
                    )
                },
    {
        let n = self.enemies.len();
        let mut i: usize = 0;
        while i < n
            invariant
                n == self.enemies@.len(),
                self.enemies@ == old(self).enemies@,
                enemies_ok(old(self).enemies@),
                old(self).player.wf(),
                self.player == old(self).player,
                self.player_lives == old(self).player_lives,
                old(self).player_lives >= 0,
                self.player_score == old(self).player_score,
                self.wave_manager == old(self).wave_manager,
                self.bullets@ == old(self).bullets@,
                sounds@ == old(sounds)@,
                0 <= i <= n,
                forall|j: int|
                    0 <= j < i ==> !(old(self).player.is_normal() && rams_player(
                        #[trigger] old(self).enemies@[j],
                        old(self).player,
                    )),
            decreases n - i,
        {
            let enemy = self.enemies[i];
            let homing = match enemy.state {
                EnemyState::Homing(_) => true,
                _ => false,
            };
            if homing && enemy.overlaps(&self.player.collision_rect) {
                let player_invisible = match self.player.state {
                    PlayerState::Invisible(_) => true,
                    PlayerState::Normal => false,
                };
                if !player_invisible {
                    if self.player_lives > 0 {
                        self.player_lives = self.player_lives - 1;
                    }
                    sounds.push(sound_cue(SoundIdentifier::PlayerOuch, 100));
                    self.player.process_command_optional(
                        Some(PlayerCommand::ChangeState(PlayerState::Invisible(PLAYER_TIME_INVISIBLE))),
                    );
                    proof {
                        let oe = old(self).enemies@;
                        let op = old(self).player;
                        assert(rams_player(oe[i as int], op));
                        assert forall|k: int|
                            0 <= k < oe.len() && op.is_normal() && rams_player(#[trigger] oe[k], op)
                                && (forall|j: int| 0 <= j < k ==> !rams_player(#[trigger] oe[j], op))
                            implies k == i by {
                            if k > i {
                                assert(!rams_player(oe[i as int], op));
                            }
                        }
                    }
                    let mut dead = enemy;
                    dead.state_shared.health = 0;
                    self.enemies.set(i, dead);
                    proof {
                        assert(dead == Enemy::with_health(old(self).enemies@[i as int], 0));
                        assert forall|k: int| 0 <= k < self.enemies@.len() implies (
                        #[trigger] self.enemies@[k]).wf() && self.enemies@[k] == Enemy::with_health(
                            old(self).enemies@[k],
                            self.enemies@[k].state_shared.health,
                        ) by {
                            if k != i {
                                assert(self.enemies@[k] == old(self).enemies@[k]);
                            }
                        }
                    }
                    return;
                }
            }
            i = i + 1;
        }
    }

    /// Last step of the resolution pass: used bullets, dead enemies and
    /// whatever has left the world are removed.
    pub fn collect_garbage(&mut self)
        ensures
            gc_step(*old(self), *final(self)),
            final(self).bullets@ == kept_bullets(old(self).bullets@),
            final(self).enemies@ == kept_enemies(old(self).enemies@),
            final(self).wave_manager == old(self).wave_manager,
            final(self).player == old(self).player,
            final(self).player_score == old(self).player_score,
            final(self).player_lives == old(self).player_lives,
    {
        let mut kept: Vec<Bullet> = Vec::new();
        let nb = self.bullets.len();
        let mut i: usize = 0;
        while i < nb
            invariant
                nb == self.bullets@.len(),
                0 <= i <= nb,
                kept@ == kept_bullets(self.bullets@.subrange(0, i as int)),
            decreases nb - i,
        {
            let b = self.bullets[i];
            let inside = -crate::constants::WORLD_LIMIT <= b.pos.x && b.pos.x
                <= crate::constants::WORLD_LIMIT && -crate::constants::WORLD_LIMIT <= b.pos.y
                && b.pos.y <= crate::constants::WORLD_LIMIT;
            if !b.is_kill && inside {
                kept.push(b);
            }
            proof {
                assert(self.bullets@.subrange(0, i + 1).last() == b);
                assert(self.bullets@.subrange(0, i + 1).drop_last() =~= self.bullets@.subrange(
                    0,
                    i as int,
                ));
            }
            i = i + 1;
        }
        proof {
            assert(self.bullets@.subrange(0, nb as int) =~= self.bullets@);
        }
        self.bullets = kept;

        let mut kept: Vec<Enemy> = Vec::new();
        let ne = self.enemies.len();
        let mut j: usize = 0;
        while j < ne
            invariant
                ne == self.enemies@.len(),
                0 <= j <= ne,
                kept@ == kept_enemies(self.enemies@.subrange(0, j as int)),
            decreases ne - j,
        {
            let e = self.enemies[j];
            let p = e.state_shared.pos;
            let inside = -crate::constants::WORLD_LIMIT <= p.x && p.x
                <= crate::constants::WORLD_LIMIT && -crate::constants::WORLD_LIMIT <= p.y && p.y
                <= crate::constants::WORLD_LIMIT;
            if e.state_shared.health > 0 && inside {
                kept.push(e);
            }
            proof {
                assert(self.enemies@.subrange(0, j + 1).last() == e);
                assert(self.enemies@.subrange(0, j + 1).drop_last() =~= self.enemies@.subrange(
                    0,
                    j as int,
                ));
            }
            j = j + 1;
        }
        proof {
            assert(self.enemies@.subrange(0, ne as int) =~= self.enemies@);
        }
        self.enemies = kept;
    }
}

/// The bullet can still hurt an enemy.
pub open spec fn can_hit(b: Bullet) -> bool {
    b.hurt_type == BulletHurtType::Enemy && !b.is_kill
}

/// The bullet touches a living enemy.
pub open spec fn strikes(b: Bullet, e: Enemy) -> bool {
    e.state_shared.health > 0 && rects_overlap(e.state_shared.collision_rect, b.collision_rect)
}

/// Index of the first enemy from `j` on that the bullet strikes, or the
/// number of enemies if there is none.
pub open spec fn first_struck(b: Bullet, es: Seq<Enemy>, j: int) -> int
    decreases es.len() - j,
{
    if j >= es.len() {
        es.len() as int
    } else if strikes(b, es[j]) {
        j
    } else {
        first_struck(b, es, j + 1)
    }
}

proof fn lemma_first_struck(b: Bullet, es: Seq<Enemy>, j: int)
    requires
        0 <= j,
    ensures
        first_struck(b, es, j) <= es.len(),
        first_struck(b, es, j) < es.len() ==> j <= first_struck(b, es, j) && strikes(
            b,
            es[first_struck(b, es, j)],
        ),
    decreases es.len() - j,
{
    if j < es.len() && !strikes(b, es[j]) {
        lemma_first_struck(b, es, j + 1);
    }
}

/// What is remembered of an enemy that died.
pub open spec fn death_of(e: Enemy) -> DeathRecord {
    DeathRecord {
        pos: e.state_shared.pos,
        death_method: e.state_shared.death_method,
        enemy_type: e.state_shared.enemy_type,
        enemy_color: e.state_shared.enemy_color,
    }
}

/// Bullets, enemies, deaths, and whether any bullet struck, after the first
/// `n` bullets have been scanned against the enemies in order: a bullet that
/// can hurt enemies takes one health from the first living enemy it
/// touches and is used up; an enemy left without health is recorded.
pub open spec fn scan_hits(bs: Seq<Bullet>, es: Seq<Enemy>, n: int) -> (
    Seq<Bullet>,
    Seq<Enemy>,
    Seq<DeathRecord>,
    bool,
)
    decreases n,
{
    if n <= 0 {
        (bs, es, Seq::empty(), false)
    } else {
        let prev = scan_hits(bs, es, n - 1);
        let b = bs[n - 1];
        let t = first_struck(b, prev.1, 0);
        if can_hit(b) && t < prev.1.len() {
            let e = prev.1[t];
            let hit = Enemy::with_health(e, (e.state_shared.health - 1) as i32);
            (
                prev.0.update(n - 1, Bullet { is_kill: true, ..b }),
                prev.1.update(t, hit),
                if hit.state_shared.health <= 0 {
                    prev.2.push(death_of(e))
                } else {
                    prev.2
                },
                true,
            )
        } else {
            prev
        }
    }
}

/// A death that can be acted on: its position can take a fan of children and
/// it asks for no negative number of them.
pub open spec fn death_ok(d: DeathRecord) -> bool {
    &&& pos_in_reach(d.pos)
    &&& match d.death_method {
        EnemyDeathMethod::SpawnChildren(n) => n >= 0,
        EnemyDeathMethod::Vanish => true,
    }
}

pub open spec fn enemies_in_reach(es: Seq<Enemy>) -> bool {
    forall|i: int| 0 <= i < es.len() ==> pos_in_reach((#[trigger] es[i]).state_shared.pos)
}

/// Index of the first living enemy that the bullet touches, or the number of
/// enemies if there is none.
fn first_struck_index(b: &Bullet, enemies: &Vec<Enemy>) -> (r: usize)
    ensures
        r == first_struck(*b, enemies@, 0),
{
    let n = enemies.len();
    let mut j: usize = 0;
    while j < n
        invariant
            n == enemies@.len(),
            0 <= j <= n,
            first_struck(*b, enemies@, 0) == first_struck(*b, enemies@, j as int),
        decreases n - j,
    {
        if enemies[j].state_shared.health > 0 && enemies[j].overlaps(&b.collision_rect) {
            return j;
        }
        j = j + 1;
    }
    j
}

impl GameStateGame {
    /// Third step of the resolution pass: each bullet that hurts enemies
    /// strikes the first living enemy it touches, in the order of the enemy
    /// list, and is used up. The enemies that die are returned, in order, so
    /// that their children appear only once the scan is over.
    pub fn resolve_enemy_hits(&mut self, sounds: &mut Vec<SoundCue>) -> (deaths: Vec<DeathRecord>)
        requires
            enemies_ok(old(self).enemies@),
            enemies_in_reach(old(self).enemies@),
        ensures
            scan_step(*old(self), *final(self), deaths@),
            ({
                let sc = scan_hits(
                    old(self).bullets@,
                    old(self).enemies@,
                    old(self).bullets@.len() as int,
                );
                &&& final(self).bullets@ == sc.0
                &&& final(self).enemies@ == sc.1
                &&& deaths@ == sc.2
                &&& final(self).wave_manager.last_enemy_death_reason == if sc.3 {
                    LastEnemyDeathReason::Player
                } else {
                    old(self).wave_manager.last_enemy_death_reason
                }
            }),
            enemies_ok(final(self).enemies@),
            enemies_in_reach(final(self).enemies@),
            forall|k: int| 0 <= k < deaths@.len() ==> death_ok(#[trigger] deaths@[k]),
            final(sounds)@.len() == old(sounds)@.len() + deaths@.len(),
            final(self).wave_manager.state == old(self).wave_manager.state,
            final(self).wave_manager.internal_timer == old(self).wave_manager.internal_timer,
            final(self).player == old(self).player,
            final(self).player_score == old(self).player_score,
            final(self).player_lives == old(self).player_lives,
    {
        let ghost bs = self.bullets@;
        let ghost es = self.enemies@;
        let mut deaths: Vec<DeathRecord> = Vec::new();
        let ghost mut any = false;
        let nb = self.bullets.len();
        let mut i: usize = 0;
        while i < nb
            invariant
                nb == bs.len(),
                0 <= i <= nb,
                (self.bullets@, self.enemies@, deaths@, any) == scan_hits(bs, es, i as int),
                self.bullets@.len() == nb,
                forall|k: int| i <= k < nb ==> self.bullets@[k] == bs[k],
                self.enemies@.len() == es.len(),
                forall|k: int|
                    0 <= k < es.len() ==> (#[trigger] self.enemies@[k]).state_shared.pos
                        == es[k].state_shared.pos,
                enemies_ok(self.enemies@),
                enemies_in_reach(es),
                forall|k: int| 0 <= k < deaths@.len() ==> death_ok(#[trigger] deaths@[k]),
                sounds@.len() == old(sounds)@.len() + deaths@.len(),
                self.wave_manager.last_enemy_death_reason == if any {
                    LastEnemyDeathReason::Player
                } else {
                    old(self).wave_manager.last_enemy_death_reason
                },
                self.wave_manager.state == old(self).wave_manager.state,
                self.wave_manager.internal_timer == old(self).wave_manager.internal_timer,
                self.player == old(self).player,
                self.player_score == old(self).player_score,
                self.player_lives == old(self).player_lives,
            decreases nb - i,
        {
            let bullet = self.bullets[i];
            let hurts_enemies = match bullet.hurt_type {
                BulletHurtType::Enemy => true,
                BulletHurtType::Player => false,
            };
            if hurts_enemies && !bullet.is_kill {
                let t = first_struck_index(&bullet, &self.enemies);
                proof {
                    lemma_first_struck(bullet, self.enemies@, 0);
                }
                if t < self.enemies.len() {
                    let enemy = self.enemies[t];
                    let mut hit = enemy;
                    hit.state_shared.health = enemy.state_shared.health - 1;
                    self.wave_manager.last_enemy_death_reason = LastEnemyDeathReason::Player;
                    if hit.state_shared.health <= 0 {
                        sounds.push(sound_cue(SoundIdentifier::EnemyOuch, 100));
                        deaths.push(
                            DeathRecord {
                                pos: enemy.state_shared.pos,
                                death_method: enemy.state_shared.death_method,
                                enemy_type: enemy.state_shared.enemy_type,
                                enemy_color: enemy.state_shared.enemy_color,
                            },
                        );
                    }
                    self.enemies.set(t, hit);
                    // a bullet hurts one enemy only
                    let mut used = bullet;
                    used.is_kill = true;
                    self.bullets.set(i, used);
                    proof {
                        any = true;
                        assert(self.enemies@[t as int].wf());
                        assert forall|k: int| 0 <= k < self.enemies@.len() implies (
                        #[trigger] self.enemies@[k]).wf() by {
                            if k != t {
                                assert(self.enemies@[k] == scan_hits(bs, es, i as int).1[k]);
                            }
                        }
                        assert(pos_in_reach(es[t as int].state_shared.pos));
                    }
                }
            }
            i = i + 1;
        }
        proof {
            assert forall|k: int| 0 <= k < self.enemies@.len() implies pos_in_reach(
                (#[trigger] self.enemies@[k]).state_shared.pos,
            ) by {
                assert(pos_in_reach(es[k].state_shared.pos));
            }
        }
        deaths
    }
}

/// Points for killing an enemy of this type.
pub open spec fn death_value(t: EnemyType) -> i32 {
    match t {
        EnemyType::Normal => SCORE_NORMAL,
        EnemyType::Mini => SCORE_MINI,
    }
}

/// The score after the first `n` deaths of `ds` have been counted.
pub open spec fn score_after(s: i32, ds: Seq<DeathRecord>, n: int) -> i32
    decreases n,
{
    if n <= 0 {
        s
    } else {
        score_add(score_after(s, ds, n - 1), death_value(ds[n - 1].enemy_type))
    }
}

/// Number of minis a death leaves behind.
pub open spec fn child_count(m: EnemyDeathMethod) -> int {
    match m {
        EnemyDeathMethod::SpawnChildren(n) => if n > 0 {
            n as int
        } else {
            0
        },
        EnemyDeathMethod::Vanish => 0,
    }
}

/// Position of child `c` of `k`: the children are spread evenly to the right
/// of the place of death.
pub open spec fn fan_pos(d: DeathRecord, c: int, k: int) -> Vec2 {
    Vec2 { x: (d.pos.x + (c * ENEMY_CHILD_SPREAD) / k) as i64, y: d.pos.y }
}

/// Position and color of each child of the first `n` deaths, in order.
pub open spec fn children(ds: Seq<DeathRecord>, n: int) -> Seq<(Vec2, EnemyColor)>
    decreases n,
{
    if n <= 0 {
        Seq::empty()
    } else {
        let d = ds[n - 1];
        let k = child_count(d.death_method);
        children(ds, n - 1) + Seq::new(k as nat, |c: int| (fan_pos(d, c, k), d.enemy_color))
    }
}

/// `es` holds, from index `base` on, the minis made for `kids`.
pub open spec fn minis_made(
    es: Seq<Enemy>,
    base: int,
    kids: Seq<(Vec2, EnemyColor)>,
    resources: &Resources,
) -> bool {
    &&& es.len() == base + kids.len()
    &&& forall|i: int|
        0 <= i < kids.len() ==> {
            &&& spawned_from(#[trigger] es[base + i], SpawnBlueprint::Mini(kids[i].0), resources)
            &&& es[base + i].state_shared.enemy_color == kids[i].1
        }
}

impl GameStateGame {
    /// Fourth step of the resolution pass: each death scores by the type of
    /// the enemy, and a death that spawns children leaves that many minis,
    /// fanned out from where it died.
    pub fn resolve_deaths(
        &mut self,
        deaths: &Vec<DeathRecord>,
        resources: &Resources,
        sounds: &mut Vec<SoundCue>,
    )
        requires
            resources.wf(),
            forall|k: int| 0 <= k < deaths@.len() ==> death_ok(#[trigger] deaths@[k]),
            enemies_ok(old(self).enemies@),
        ensures
            deaths_step(*old(self), *final(self), deaths@, resources),
            final(self).player_score == score_after(
                old(self).player_score,
                deaths@,
                deaths@.len() as int,
            ),
            final(self).enemies@.subrange(0, old(self).enemies@.len() as int)
                == old(self).enemies@,
            minis_made(
                final(self).enemies@,
                old(self).enemies@.len() as int,
                children(deaths@, deaths@.len() as int),
                resources,
            ),
            enemies_ok(final(self).enemies@),
            final(self).bullets@ == old(self).bullets@,
            final(self).player == old(self).player,
            final(self).player_lives == old(self).player_lives,
            final(self).wave_manager == old(self).wave_manager,
            final(sounds)@.subrange(0, old(sounds)@.len() as int) == old(sounds)@,
    {
        let ghost e0 = self.enemies@;
        let ghost s0 = sounds@;
        let ghost base = e0.len() as int;
        let nd = deaths.len();
        let mut i: usize = 0;
        while i < nd
            invariant
                nd == deaths@.len(),
                0 <= i <= nd,
                resources.wf(),
                forall|k: int| 0 <= k < deaths@.len() ==> death_ok(#[trigger] deaths@[k]),
                self.player_score == score_after(old(self).player_score, deaths@, i as int),
                self.enemies@.subrange(0, base) == e0,
                minis_made(self.enemies@, base, children(deaths@, i as int), resources),
                enemies_ok(self.enemies@),
                self.bullets@ == old(self).bullets@,
                self.player == old(self).player,
                self.player_lives == old(self).player_lives,
                self.wave_manager == old(self).wave_manager,
                sounds@.len() >= s0.len(),
                sounds@.subrange(0, s0.len() as int) == s0,
                base == old(self).enemies@.len(),
                e0 == old(self).enemies@,
                s0 == old(sounds)@,
            decreases nd - i,
        {
            let d = deaths[i];
            let points = match d.enemy_type {
                EnemyType::Normal => SCORE_NORMAL,
                EnemyType::Mini => SCORE_MINI,
            };
            assert(points == death_value(deaths@[i as int].enemy_type));
            self.player_score = saturating_score(self.player_score, points);
            let ghost kids_before = children(deaths@, i as int);
            let ghost k_len = child_count(d.death_method);
            let ghost fan = Seq::new(
                k_len as nat,
                |c: int| (fan_pos(d, c, k_len), d.enemy_color),
            );
            assert(children(deaths@, i + 1) == kids_before + fan);
            assert(death_ok(deaths@[i as int]));
            match d.death_method {
                EnemyDeathMethod::Vanish => {
                    assert(fan =~= Seq::<(Vec2, EnemyColor)>::empty());
                    assert(kids_before + fan =~= kids_before);
                },
                EnemyDeathMethod::SpawnChildren(amount) => {
                    let ghost before_push = sounds@;
                    sounds.push(sound_cue(SoundIdentifier::SpawnMini, 100));
                    assert(sounds@.subrange(0, s0.len() as int) =~= before_push.subrange(
                        0,
                        s0.len() as int,
                    ));
                    assert(fan.len() == amount);
                    assert(kids_before + fan.subrange(0, 0) =~= kids_before);
                    let ghost score_now = self.player_score;
                    let mut c: i32 = 0;
                    while c < amount
                        invariant
                            self.player_score == score_now,
                            base == e0.len(),
                            0 <= c <= amount,
                            k_len == amount as int,
                            death_ok(d),
                            resources.wf(),
                            self.enemies@.subrange(0, base) == e0,
                            minis_made(
                                self.enemies@,
                                base,
                                kids_before + fan.subrange(0, c as int),
                                resources,
                            ),
                            enemies_ok(self.enemies@),
                            self.bullets@ == old(self).bullets@,
                            self.player == old(self).player,
                            self.player_lives == old(self).player_lives,
                            self.wave_manager == old(self).wave_manager,
                            sounds@.len() >= s0.len(),
                            sounds@.subrange(0, s0.len() as int) == s0,
                            fan.len() == amount,
                            forall|q: int|
                                0 <= q < amount ==> #[trigger] fan[q] == (
                                    fan_pos(d, q, k_len),
                                    d.enemy_color,
                                ),
                        decreases amount - c,
                    {
                        proof {
                            assert(0 <= c * ENEMY_CHILD_SPREAD <= amount * ENEMY_CHILD_SPREAD)
                                by (nonlinear_arith)
                                requires
                                    0 <= c < amount,
                            ;
                            assert((c * ENEMY_CHILD_SPREAD) / (amount as int) <= ENEMY_CHILD_SPREAD)
                                by (nonlinear_arith)
                                requires
                                    0 <= c < amount,
                            ;
                            assert((c * ENEMY_CHILD_SPREAD) / (amount as int) >= 0)
                                by (nonlinear_arith)
                                requires
                                    0 <= c < amount,
                            ;
                        }
                        let offset = (c as i64) * ENEMY_CHILD_SPREAD / (amount as i64);
                        assert(offset == (c * ENEMY_CHILD_SPREAD) / k_len);
                        let spawn_pos = vec2(d.pos.x + offset, d.pos.y);
                        assert(spawn_pos == fan_pos(d, c as int, k_len));
                        let ghost before = self.enemies@;
                        spawn_enemy(
                            &mut self.enemies,
                            resources,
                            SpawnBlueprint::Mini(spawn_pos),
                            d.enemy_color,
                        );
                        proof {
                            assert forall|x: int| 0 <= x < before.len() implies self.enemies@[x]
                                == before[x] by {
                                assert(self.enemies@.drop_last()[x] == self.enemies@[x]);
                            }
                            let kids = kids_before + fan.subrange(0, c as int);
                            let kids2 = kids_before + fan.subrange(0, c + 1);
                            assert(fan[c as int] == (spawn_pos, d.enemy_color));
                            assert(kids2 =~= kids.push((spawn_pos, d.enemy_color)));
                            assert(self.enemies@.subrange(0, base) =~= before.subrange(0, base));
                            assert forall|j: int| 0 <= j < kids2.len() implies {
                                &&& spawned_from(
                                    #[trigger] self.enemies@[base + j],
                                    SpawnBlueprint::Mini(kids2[j].0),
                                    resources,
                                )
                                &&& self.enemies@[base + j].state_shared.enemy_color == kids2[j].1
                            } by {
                                if j < kids.len() {
                                    assert(self.enemies@[base + j] == before[base + j]);
                                }
                            }
                            assert forall|k: int| 0 <= k < self.enemies@.len() implies (
                            #[trigger] self.enemies@[k]).wf() by {
                                if k < before.len() {
                                    assert(self.enemies@[k] == before[k]);
                                }
                            }
                            assert(sounds@.subrange(0, s0.len() as int) == s0);
                        }
                        c = c + 1;
                    }
                    proof {
                        assert(fan.subrange(0, amount as int) =~= fan);
                        assert(sounds@.subrange(0, s0.len() as int) =~= s0);
                    }
                },
            }
            i = i + 1;
        }
    }
}

/// No bullet in `bs` can strike an enemy of `es`.
pub open spec fn no_strikes(bs: Seq<Bullet>, es: Seq<Enemy>) -> bool {
    forall|i: int|
        0 <= i < bs.len() ==> !(can_hit(#[trigger] bs[i]) && first_struck(bs[i], es, 0) < es.len())
}

/// A frame with nothing to resolve: no bullet or homing enemy reaches a
/// ship that can be hurt, and no bullet reaches a living enemy.
pub open spec fn frame_is_quiet(g: &GameStateGame) -> bool {
    &&& (!g.player.is_normal() || forall|i: int|
        0 <= i < g.bullets@.len() ==> !hits_player(#[trigger] g.bullets@[i], g.player))
    &&& (!g.player.is_normal() || forall|i: int|
        0 <= i < g.enemies@.len() ==> !rams_player(#[trigger] g.enemies@[i], g.player))
    &&& no_strikes(g.bullets@, g.enemies@)
}

/// Where no bullet can strike, the scan changes nothing.
pub proof fn lemma_scan_quiet(bs: Seq<Bullet>, es: Seq<Enemy>, n: int)
    requires
        0 <= n <= bs.len(),
        no_strikes(bs, es),
    ensures
        scan_hits(bs, es, n) == (bs, es, Seq::<DeathRecord>::empty(), false),
    decreases n,
{
    if n > 0 {
        lemma_scan_quiet(bs, es, n - 1);
        assert(!(can_hit(bs[n - 1]) && first_struck(bs[n - 1], es, 0) < es.len()));
    }
}

/// The bullet's velocity and box agree with its side and position.
pub open spec fn bullet_shape(b: Bullet) -> bool {
    &&& b.vel == crate::bullet::bullet_velocity(b.hurt_type)
    &&& b.collision_rect == crate::bullet::bullet_rect(b.pos)
}

impl GameStateGame {
    /// The resolution pass, in its load-bearing order: bullets against the
    /// ship, homing enemies against the ship, bullets against enemies, then
    /// the deaths, then the removal of what is used up, dead or gone, as
    /// `pass_step` says. It returns the command that ends the match exactly
    /// when the ship has no life left, whether a bullet or a homing enemy
    /// took the last one.
    #[verifier::rlimit(40)]
    pub fn resolution_pass(
        &mut self,
        resources: &Resources,
        sounds: &mut Vec<SoundCue>,
    ) -> (r: Option<GameStateCommand>)
        requires
            resources.wf(),
            old(self).player.wf(),
            old(self).player_lives >= 0,
            enemies_ok(old(self).enemies@),
            enemies_in_reach(old(self).enemies@),
            forall|i: int| 0 <= i < old(self).bullets@.len() ==> bullet_shape(#[trigger] old(self).bullets@[i]),
        ensures
            final(self).player.wf(),
            final(self).player_lives >= 0,
            final(self).player_lives <= old(self).player_lives,
            final(self).player_score >= old(self).player_score,
            final(self).wave_manager.wf() == old(self).wave_manager.wf(),
            final(self).wave_manager.state == old(self).wave_manager.state,
            final(self).wave_manager.internal_timer == old(self).wave_manager.internal_timer,
            final(self).player.pos == old(self).player.pos,
            pass_step(*old(self), *final(self), r, resources),
            (r is Some) == (final(self).player_lives == 0),
            r is Some ==> r == Some(to_menu(final(self).player_score)),
            r is None ==> {
                &&& enemies_ok(final(self).enemies@)
                &&& enemies_in_world(final(self).enemies@)
                &&& bullets_ok(final(self).bullets@)
            },
            r is None && childless(old(self).enemies@) ==> frame_is_quiet(final(self)),
            frame_is_quiet(old(self)) && old(self).player_lives > 0 ==> {
                &&& r is None
                &&& final(self).wave_manager == old(self).wave_manager
                &&& final(self).player_score == old(self).player_score
                &&& final(self).player_lives == old(self).player_lives
                &&& final(self).player == old(self).player
                &&& final(self).bullets@ == kept_bullets(old(self).bullets@)
                &&& final(self).enemies@ == kept_enemies(old(self).enemies@)
            },
    {
        let ghost start = *self;
        let command = self.resolve_player_hits(sounds);
        let ghost after_player = *self;
        match command {
            Some(_) => {
                // the match ends; what is used up or dead still goes
                self.collect_garbage();
                proof {
                    lemma_pass_ends_on_bullet(start, after_player, *self, command, resources);
                }
                return command;
            },
            None => {},
        }
        self.resolve_homing_hits(sounds);
        let ghost after_homing = *self;
        // the ship may have lost its last life to a homing enemy
        if self.player_lives <= 0 {
            // the rammed enemy is dead too, whatever lives remain
            self.collect_garbage();
            proof {
                lemma_pass_ends_on_ram(start, after_player, after_homing, *self, resources);
            }
            return Some(
                GameStateCommand::ChangeState(
                    GameStateIdentifier::Menu,
                    Some(ChangeStatePayload::MenuPayload(MenuPayload { score: self.player_score })),
                ),
            );
        }
        assert forall|k: int| 0 <= k < self.enemies@.len() implies pos_in_reach(
            (#[trigger] self.enemies@[k]).state_shared.pos,
        ) by {
            assert(pos_in_reach(start.enemies@[k].state_shared.pos));
        }
        let deaths = self.resolve_enemy_hits(sounds);
        let ghost after_scan = *self;
        proof {
            if frame_is_quiet(&start) {
                assert(after_player.bullets@ == start.bullets@);
                assert(after_homing.enemies@ == start.enemies@);
                lemma_scan_quiet(start.bullets@, start.enemies@, start.bullets@.len() as int);
                assert(deaths@.len() == 0);
            }
        }
        self.resolve_deaths(&deaths, resources, sounds);
        proof {
            if frame_is_quiet(&start) {
                assert(children(deaths@, 0) =~= Seq::<(Vec2, EnemyColor)>::empty());
                assert(self.enemies@ =~= after_scan.enemies@);
            }
        }
        proof {
            lemma_score_grows(after_scan.player_score, deaths@, deaths@.len() as int);
            assert forall|i: int| 0 <= i < after_homing.bullets@.len() implies bullet_shape(
                #[trigger] after_homing.bullets@[i],
            ) by {
                assert(bullet_shape(start.bullets@[i]));
            }
            lemma_scan_shape(
                after_homing.bullets@,
                after_homing.enemies@,
                after_homing.bullets@.len() as int,
            );
        }
        let ghost before_gc = *self;
        self.collect_garbage();
        proof {
            lemma_kept_bullets(before_gc.bullets@);
            lemma_kept_enemies(before_gc.enemies@);
            lemma_pass_runs_through(
                start,
                after_player,
                after_homing,
                after_scan,
                deaths@,
                before_gc,
                *self,
                resources,
            );
            if childless(start.enemies@) {
                self.lemma_pass_leaves_quiet(
                    start,
                    after_player,
                    after_homing,
                    after_scan,
                    before_gc,
                    deaths@,
                );
            }
        }
        None
    }
}

/// Scores only grow as deaths are counted.
proof fn lemma_score_grows(s: i32, ds: Seq<DeathRecord>, n: int)
    ensures
        score_after(s, ds, n) >= s,
    decreases n,
{
    if n > 0 {
        lemma_score_grows(s, ds, n - 1);
    }
}

/// The scan only uses bullets up, and keeps the length of both lists.
proof fn lemma_scan_shape(bs: Seq<Bullet>, es: Seq<Enemy>, n: int)
    requires
        0 <= n <= bs.len(),
        forall|i: int| 0 <= i < bs.len() ==> bullet_shape(#[trigger] bs[i]),
    ensures
        scan_hits(bs, es, n).0.len() == bs.len(),
        scan_hits(bs, es, n).1.len() == es.len(),
        forall|i: int|
            0 <= i < bs.len() ==> bullet_shape(#[trigger] scan_hits(bs, es, n).0[i]),
    decreases n,
{
    if n > 0 {
        lemma_scan_shape(bs, es, n - 1);
        let prev = scan_hits(bs, es, n - 1);
        lemma_first_struck(bs[n - 1], prev.1, 0);
        assert(bullet_shape(bs[n - 1]));
    }
}

/// What is kept is used up by no one and inside the world.
proof fn lemma_kept_bullets(s: Seq<Bullet>)
    requires
        forall|i: int| 0 <= i < s.len() ==> bullet_shape(#[trigger] s[i]),
    ensures
        bullets_ok(kept_bullets(s)),
    decreases s.len(),
{
    if s.len() > 0 {
        lemma_kept_bullets(s.drop_last());
        assert(bullet_shape(s[s.len() - 1]));
    }
}

proof fn lemma_kept_enemies(s: Seq<Enemy>)
    requires
        enemies_ok(s),
    ensures
        enemies_ok(kept_enemies(s)),
        enemies_in_world(kept_enemies(s)),
    decreases s.len(),
{
    if s.len() > 0 {
        lemma_kept_enemies(s.drop_last());
        assert(s[s.len() - 1].wf());
    }
}

impl GameStateGame {
    /// Every enemy takes its update, in order, each with random choices of
    /// its own; shooting enemies add their bullets, in the order of the enemies.
    pub fn update_enemies(&mut self, dt: u32, sounds: &mut Vec<SoundCue>)
        requires
            enemies_ok(old(self).enemies@),
            enemies_in_world(old(self).enemies@),
            bullets_ok(old(self).bullets@),
        ensures
            exists|ds: Seq<EnemyDraws>| #[trigger] enemies_phase(*old(self), *final(self), dt, ds),
            exists|ds: Seq<EnemyDraws>|
                enemies_step(
                    old(self).enemies@,
                    final(self).enemies@,
                    old(self).bullets@,
                    final(self).bullets@,
                    dt,
                    ds,
                    old(self).player.pos,
                    old(self).wave_manager.internal_timer,
                ) && final(self).wave_manager.last_enemy_death_reason == if any_lost(
                    old(self).enemies@,
                    dt,
                    ds,
                    old(self).player.pos,
                    old(self).wave_manager.internal_timer,
                ) {
                    LastEnemyDeathReason::Environment
                } else {
                    old(self).wave_manager.last_enemy_death_reason
                },
            enemies_ok(final(self).enemies@),
            enemies_in_reach(final(self).enemies@),
            bullets_ok(final(self).bullets@),
            final(self).wave_manager.state == old(self).wave_manager.state,
            final(self).wave_manager.internal_timer == old(self).wave_manager.internal_timer,
            final(self).player == old(self).player,
            final(self).player_score == old(self).player_score,
            final(self).player_lives == old(self).player_lives,
    {
        let ghost es = self.enemies@;
        let ghost bs = self.bullets@;
        let ghost pp = self.player.pos;
        let ghost clock = self.wave_manager.internal_timer;
        let ghost reason0 = self.wave_manager.last_enemy_death_reason;
        let ghost mut ds: Seq<EnemyDraws> = Seq::empty();
        let n = self.enemies.len();
        let mut i: usize = 0;
        while i < n
            invariant
                n == self.enemies@.len(),
                n == es.len(),
                0 <= i <= n,
                ds.len() == i,
                forall|k: int| 0 <= k < i ==> (#[trigger] ds[k]).wf(),
                forall|k: int|
                    0 <= k < i ==> #[trigger] self.enemies@[k] == enemy_after(
                        es[k],
                        dt,
                        ds[k],
                        pp,
                        clock,
                    ),
                forall|k: int| i <= k < n ==> #[trigger] self.enemies@[k] == es[k],
                self.bullets@ == bs + all_shots(es, dt, ds, i as int),
                self.wave_manager.last_enemy_death_reason == if any_lost(es, dt, ds, pp, clock) {
                    LastEnemyDeathReason::Environment
                } else {
                    reason0
                },
                enemies_ok(es),
                enemies_in_world(es),
                enemies_ok(self.enemies@),
                forall|k: int| 0 <= k < i ==> pos_in_reach((#[trigger] self.enemies@[k]).state_shared.pos),
                bullets_ok(self.bullets@),
                self.player.pos == pp,
                self.wave_manager.internal_timer == clock,
                self.wave_manager.state == old(self).wave_manager.state,
                self.player == old(self).player,
                self.player_score == old(self).player_score,
                self.player_lives == old(self).player_lives,
            decreases n - i,
        {
            let mut enemy = self.enemies[i];
            let ghost b0 = self.bullets@;
            let ghost r0 = self.wave_manager.last_enemy_death_reason;
            assert(enemy.wf() && in_world(enemy.state_shared.pos));
            enemy.update(dt, &mut self.bullets, &self.player.pos, &mut self.wave_manager, sounds);
            self.enemies.set(i, enemy);
            proof {
                let d = choose|d: EnemyDraws|
                    d.wf() && #[trigger] Enemy::update_spec(
                        es[i as int],
                        enemy,
                        dt,
                        d,
                        pp,
                        clock,
                        b0,
                        self.bullets@,
                    );
                let ds2 = ds.push(d);
                lemma_all_shots_prefix(es, dt, ds, ds2, i as int);
                assert(self.bullets@ =~= bs + all_shots(es, dt, ds2, i + 1));
                assert(pos_in_reach(enemy.state_shared.pos));
                assert forall|k: int| 0 <= k < self.bullets@.len() implies (
                #[trigger] self.bullets@[k]).wf() by {
                    if k < b0.len() {
                        assert(self.bullets@[k] == (b0 + shots(es[i as int], dt, d))[k]);
                    }
                }
                lemma_any_lost_push(es, dt, ds, d, pp, clock);
                ds = ds2;
            }
            i = i + 1;
        }
        proof {
            assert(self.enemies@ =~= enemies_after(es, dt, ds, pp, clock));
            assert(enemies_step(es, self.enemies@, bs, self.bullets@, dt, ds, pp, clock));
            assert(self.wave_manager.last_enemy_death_reason == if any_lost(es, dt, ds, pp, clock) {
                LastEnemyDeathReason::Environment
            } else {
                reason0
            });
            assert(enemies_phase(*old(self), *self, dt, ds));
        }
    }

    /// Every bullet moves by its velocity over `dt`.
    pub fn update_bullets(&mut self, dt: u32)
        requires
            bullets_ok(old(self).bullets@),
        ensures
            bullets_step(*old(self), *final(self), dt),
            final(self).bullets@.len() == old(self).bullets@.len(),
            forall|k: int|
                0 <= k < old(self).bullets@.len() ==> {
                    let o = old(self).bullets@[k];
                    let b = #[trigger] final(self).bullets@[k];
                    &&& bullet_shape(b)
                    &&& b.pos.x == o.pos.x + o.vel.x * dt
                    &&& b.pos.y == o.pos.y + o.vel.y * dt
                    &&& b.hurt_type == o.hurt_type
                    &&& b.is_kill == o.is_kill
                },
            final(self).enemies@ == old(self).enemies@,
            final(self).wave_manager == old(self).wave_manager,
            final(self).player == old(self).player,
            final(self).player_score == old(self).player_score,
            final(self).player_lives == old(self).player_lives,
    {
        let n = self.bullets.len();
        let mut i: usize = 0;
        while i < n
            invariant
                n == self.bullets@.len(),
                n == old(self).bullets@.len(),
                0 <= i <= n,
                forall|k: int| i <= k < n ==> #[trigger] self.bullets@[k] == old(self).bullets@[k],
                bullets_ok(old(self).bullets@),
                forall|k: int|
                    0 <= k < i ==> {
                        let o = old(self).bullets@[k];
                        let b = #[trigger] self.bullets@[k];
                        &&& bullet_shape(b)
                        &&& b.pos.x == o.pos.x + o.vel.x * dt
                        &&& b.pos.y == o.pos.y + o.vel.y * dt
                        &&& b.hurt_type == o.hurt_type
                        &&& b.is_kill == o.is_kill
                    },
                self.enemies@ == old(self).enemies@,
                self.wave_manager == old(self).wave_manager,
                self.player == old(self).player,
                self.player_score == old(self).player_score,
                self.player_lives == old(self).player_lives,
            decreases n - i,
        {
            let mut b = self.bullets[i];
            assert(b.wf());
            b.update(dt);
            self.bullets.set(i, b);
            i = i + 1;
        }
    }

    /// One frame of a match, as `frame_step` says: the wave manager, then the
    /// level bonus, then the enemies, then the bullets, then the resolution
    /// pass, then the ship. Returns the command that ends the match exactly
    /// when the ship has no life left.
    pub fn update(
        &mut self,
        dt: u32,
        input: &PlayerInput,
        resources: &Resources,
        sounds: &mut Vec<SoundCue>,
    ) -> (r: Option<GameStateCommand>)
        requires
            old(self).wf(),
            resources.wf(),
        ensures
            frame_step(*old(self), *final(self), r, dt, *input, resources),
            (r is Some) == (final(self).player_lives == 0),
            r is Some ==> r == Some(to_menu(final(self).player_score)),
            r is None ==> final(self).wf(),
            final(self).player.wf(),
            final(self).wave_manager.internal_timer == crate::wave::clock_after(
                old(self).wave_manager.internal_timer,
                dt,
            ),
            final(self).player_score >= old(self).player_score,
    {
        let manager_message_optional = self.wave_manager.update(
            dt,
            &mut self.enemies,
            resources,
            sounds,
        );
        let ghost w = *self;
        proof {
            assert forall|k: int| 0 <= k < self.enemies@.len() implies (#[trigger] self.enemies@[k]).wf()
                && in_world(self.enemies@[k].state_shared.pos) by {
                if k < old(self).enemies@.len() {
                    assert(self.enemies@.subrange(0, old(self).enemies@.len() as int)[k]
                        == old(self).enemies@[k]);
                } else {
                    assert(crate::wave::spawned_from(
                        self.enemies@[k],
                        SpawnBlueprint::Normal,
                        resources,
                    ));
                }
            }
            assert(wave_phase(*old(self), w, dt, manager_message_optional, resources));
        }
        match manager_message_optional {
            Some(manager_message) => match manager_message {
                WaveManagerMessage::LevelCleared => {
                    self.level_cleared(sounds);
                },
            },
            None => {},
        }
        let ghost c = *self;
        assert(cleared_phase(w, c, manager_message_optional));
        self.update_enemies(dt, sounds);
        let ghost e = *self;
        let ghost ds = choose|ds: Seq<EnemyDraws>| #[trigger] enemies_phase(c, e, dt, ds);
        self.update_bullets(dt);
        let ghost b = *self;
        let command = self.resolution_pass(resources, sounds);
        let ghost p = *self;
        match command {
            Some(_) => {
                proof {
                    lemma_frame(*old(self), w, manager_message_optional, c, e, ds, b, p, *self, command, dt, *input, resources);
                }
                return command;
            },
            None => {},
        }
        self.player.update(dt, input, &mut self.bullets, sounds);
        proof {
            assert forall|k: int| 0 <= k < self.bullets@.len() implies (#[trigger] self.bullets@[k]).wf() by {
            }
            assert(player_phase(p, *self, dt, *input));
            lemma_frame(*old(self), w, manager_message_optional, c, e, ds, b, p, *self, None, dt, *input, resources);
        }
        None
    }
}

/// The title screen, which shows the score of the last match.
#[derive(Clone, Copy, Debug, PartialEq, Eq, Structural)]
pub struct GameStateMenu {
    pub last_score_optional: Option<i32>,
}

impl GameStateMenu {
    pub fn new() -> (r: GameStateMenu)
        ensures
            r.last_score_optional is None,
    {
        GameStateMenu { last_score_optional: None }
    }

    /// Starts a match when the start key is pressed.
    pub fn update(&mut self, _dt: u32, start_pressed: bool) -> (r: Option<GameStateCommand>)
        ensures
            *final(self) == *old(self),
            r == if start_pressed {
                Some(GameStateCommand::ChangeState(GameStateIdentifier::Game, None))
            } else {
                None
            },
    {
        if start_pressed {
            return Some(GameStateCommand::ChangeState(GameStateIdentifier::Game, None));
        }
        None
    }

    /// Keeps the score that a finished match hands over.
    pub fn on_enter(&mut self, payload_optional: Option<ChangeStatePayload>)
        ensures
            final(self).last_score_optional == match payload_optional {
                Some(ChangeStatePayload::MenuPayload(p)) => Some(p.score),
                None => old(self).last_score_optional,
            },
    {
        match payload_optional {
            Some(payload) => match payload {
                ChangeStatePayload::MenuPayload(menu_payload) => {
                    self.last_score_optional = Some(menu_payload.score);
                },
            },
            None => {},
        }
    }
}

/// The keys of one frame.
#[derive(Clone, Copy, Debug, PartialEq, Eq, Structural)]
pub struct FrameInput {
    pub left: bool,
    pub right: bool,
    pub shoot: bool,
    pub start: bool,
}

/// The keys of a frame that the ship reads.
pub open spec fn ship_input(input: FrameInput) -> PlayerInput {
    PlayerInput { left: input.left, right: input.right, shoot: input.shoot }
}

/// Runs the active screen each frame and switches screens on its command,
/// handing the payload to the screen it enters.
pub struct GameManager {
    pub menu: GameStateMenu,
    pub game: GameStateGame,
    pub current_state_identifier: GameStateIdentifier,
    pub resources: Resources,
}

impl GameManager {
    /// A match that is not being played is only restarted, never updated.
    pub open spec fn wf(&self) -> bool {
        &&& self.resources.wf()
        &&& self.game.player.wf()
        &&& self.current_state_identifier == GameStateIdentifier::Game ==> self.game.wf()
    }

    pub fn new(resources: Resources) -> (r: GameManager)
        requires
            resources.wf(),
        ensures
            r.wf(),
            r.current_state_identifier == GameStateIdentifier::Menu,
            r.menu.last_score_optional is None,
    {
        let game = GameStateGame::new(&resources);
        GameManager {
            menu: GameStateMenu::new(),
            game,
            current_state_identifier: GameStateIdentifier::Menu,
            resources,
        }
    }

    /// One frame of the active screen, then the switch it asks for.
    pub fn update(&mut self, dt: u32, input: &FrameInput, sounds: &mut Vec<SoundCue>)
        requires
            old(self).wf(),
        ensures
            final(self).wf(),
            old(self).current_state_identifier == GameStateIdentifier::Menu ==> {
                &&& final(self).current_state_identifier == if input.start {
                    GameStateIdentifier::Game
                } else {
                    GameStateIdentifier::Menu
                }
                &&& input.start ==> {
                    &&& fresh_match(final(self).game, &old(self).resources)
                    &&& final(self).game.player.sprite == old(self).game.player.sprite
                    &&& final(self).menu == old(self).menu
                }
            },
            old(self).current_state_identifier == GameStateIdentifier::Menu && !input.start ==> {
                &&& final(self).game == old(self).game
                &&& final(self).menu == old(self).menu
            },
            old(self).current_state_identifier == GameStateIdentifier::Game ==> exists|
                r: Option<GameStateCommand>,
            |
                #[trigger] frame_step(
                    old(self).game,
                    final(self).game,
                    r,
                    dt,
                    ship_input(*input),
                    &old(self).resources,
                ) && final(self).current_state_identifier == if r is Some {
                    GameStateIdentifier::Menu
                } else {
                    GameStateIdentifier::Game
                } && final(self).menu.last_score_optional == if r is Some {
                    Some(final(self).game.player_score)
                } else {
                    old(self).menu.last_score_optional
                },
            old(self).current_state_identifier == GameStateIdentifier::Game
                && final(self).current_state_identifier == GameStateIdentifier::Menu
                ==> final(self).menu.last_score_optional == Some(final(self).game.player_score)
                && final(self).game.player_lives == 0,
    {
        let state_command_optional = match self.current_state_identifier {
            GameStateIdentifier::Menu => self.menu.update(dt, input.start),
            GameStateIdentifier::Game => {
                let player_input = PlayerInput {
                    left: input.left,
                    right: input.right,
                    shoot: input.shoot,
                };
                let r = self.game.update(dt, &player_input, &self.resources, sounds);
                assert(player_input == ship_input(*input));
                r
            },
        };
        match state_command_optional {
            Some(state_command) => match state_command {
                GameStateCommand::ChangeState(next_state, payload_optional) => {
                    self.current_state_identifier = next_state;
                    match next_state {
                        GameStateIdentifier::Menu => self.menu.on_enter(payload_optional),
                        GameStateIdentifier::Game => self.game.on_enter(
                            &self.resources,
                            payload_optional,
                        ),
                    }
                },
            },
            None => {},
        }
    }
}

/// The life icons celebrate while a new wave spawns after the player shot
/// the last enemy of the previous one.
pub fn lives_celebrate(wave_manager: &WaveManager) -> (r: bool)
    ensures
        r == (wave_manager.state is Spawning && wave_manager.last_enemy_death_reason
            == LastEnemyDeathReason::Player),
{
    let spawning = match wave_manager.state {
        crate::wave::WaveManagerState::Spawning(_) => true,
        crate::wave::WaveManagerState::Battle => false,
    };
    let by_player = match wave_manager.last_enemy_death_reason {
        LastEnemyDeathReason::Player => true,
        LastEnemyDeathReason::Environment => false,
    };
    spawning && by_player
}

/// After the first `n` bullets are scanned, no bullet among them that can
/// still hurt strikes an enemy; the scan keeps the lengths, each bullet's
/// side and box, and each enemy but for its health, which only goes down.
proof fn lemma_scan_resolves(bs: Seq<Bullet>, es: Seq<Enemy>, n: int)
    requires
        0 <= n <= bs.len(),
    ensures
        ({
            let sc = scan_hits(bs, es, n);
            &&& sc.0.len() == bs.len()
            &&& sc.1.len() == es.len()
            &&& forall|k: int| n <= k < bs.len() ==> #[trigger] sc.0[k] == bs[k]
            &&& forall|k: int|
                0 <= k < bs.len() ==> (#[trigger] sc.0[k]).hurt_type == bs[k].hurt_type
                    && sc.0[k].collision_rect == bs[k].collision_rect && sc.0[k].pos == bs[k].pos
            &&& forall|j: int|
                0 <= j < es.len() ==> (#[trigger] sc.1[j]) == Enemy::with_health(
                    es[j],
                    sc.1[j].state_shared.health,
                ) && sc.1[j].state_shared.health <= es[j].state_shared.health
            &&& forall|k: int, j: int|
                0 <= k < n && 0 <= j < es.len() && can_hit(#[trigger] sc.0[k]) ==> !strikes(
                    sc.0[k],
                    #[trigger] sc.1[j],
                )
        }),
    decreases n,
{
    if n > 0 {
        lemma_scan_resolves(bs, es, n - 1);
        let prev = scan_hits(bs, es, n - 1);
        let sc = scan_hits(bs, es, n);
        let b = bs[n - 1];
        let t = first_struck(b, prev.1, 0);
        lemma_first_struck(b, prev.1, 0);
        if can_hit(b) && t < prev.1.len() {
            assert forall|k: int, j: int|
                0 <= k < n && 0 <= j < es.len() && can_hit(#[trigger] sc.0[k]) implies !strikes(
                sc.0[k],
                #[trigger] sc.1[j],
            ) by {
                assert(k != n - 1);
                assert(sc.0[k] == prev.0[k]);
                if j == t {
                    assert(!strikes(prev.0[k], prev.1[j]));
                } else {
                    assert(sc.1[j] == prev.1[j]);
                }
            }
        } else {
            assert forall|k: int, j: int|
                0 <= k < n && 0 <= j < es.len() && can_hit(#[trigger] sc.0[k]) implies !strikes(
                sc.0[k],
                #[trigger] sc.1[j],
            ) by {
                if k == n - 1 {
                    assert(sc.0[k] == b);
                    lemma_no_strike_before_first(b, prev.1, 0, j);
                }
            }
        }
    }
}

/// No enemy before the first struck one is struck.
proof fn lemma_no_strike_before_first(b: Bullet, es: Seq<Enemy>, from: int, j: int)
    requires
        0 <= from <= j < first_struck(b, es, from),
    ensures
        !strikes(b, es[j]),
    decreases j - from,
{
    if from < j {
        lemma_no_strike_before_first(b, es, from + 1, j);
    }
}

/// Everything kept was there before, and is kept for a reason.
proof fn lemma_kept_bullets_from(s: Seq<Bullet>)
    ensures
        forall|i: int|
            0 <= i < kept_bullets(s).len() ==> bullet_kept(#[trigger] kept_bullets(s)[i])
                && s.contains(kept_bullets(s)[i]),
    decreases s.len(),
{
    if s.len() > 0 {
        let d = s.drop_last();
        lemma_kept_bullets_from(d);
        assert forall|i: int| 0 <= i < kept_bullets(s).len() implies bullet_kept(
            #[trigger] kept_bullets(s)[i],
        ) && s.contains(kept_bullets(s)[i]) by {
            if i < kept_bullets(d).len() {
                assert(kept_bullets(s)[i] == kept_bullets(d)[i]);
                let j = choose|j: int| 0 <= j < d.len() && d[j] == kept_bullets(d)[i];
                assert(s[j] == d[j]);
            } else {
                assert(kept_bullets(s)[i] == s[s.len() - 1]);
            }
        }
    }
}

proof fn lemma_kept_enemies_from(s: Seq<Enemy>)
    ensures
        forall|i: int|
            0 <= i < kept_enemies(s).len() ==> enemy_kept(#[trigger] kept_enemies(s)[i])
                && s.contains(kept_enemies(s)[i]),
    decreases s.len(),
{
    if s.len() > 0 {
        let d = s.drop_last();
        lemma_kept_enemies_from(d);
        assert forall|i: int| 0 <= i < kept_enemies(s).len() implies enemy_kept(
            #[trigger] kept_enemies(s)[i],
        ) && s.contains(kept_enemies(s)[i]) by {
            if i < kept_enemies(d).len() {
                assert(kept_enemies(s)[i] == kept_enemies(d)[i]);
                let j = choose|j: int| 0 <= j < d.len() && d[j] == kept_enemies(d)[i];
                assert(s[j] == d[j]);
            } else {
                assert(kept_enemies(s)[i] == s[s.len() - 1]);
            }
        }
    }
}

/// No enemy of `es` leaves children when it dies.
pub open spec fn childless(es: Seq<Enemy>) -> bool {
    forall|j: int| 0 <= j < es.len() ==> child_count((#[trigger] es[j]).state_shared.death_method) == 0
}

/// Deaths that leave no children make no children.
proof fn lemma_no_children(ds: Seq<DeathRecord>, n: int)
    requires
        0 <= n <= ds.len(),
        forall|k: int| 0 <= k < ds.len() ==> child_count((#[trigger] ds[k]).death_method) == 0,
    ensures
        children(ds, n).len() == 0,
    decreases n,
{
    if n > 0 {
        lemma_no_children(ds, n - 1);
        assert(child_count(ds[n - 1].death_method) == 0);
    }
}

/// The deaths of a scan of childless enemies leave no children.
proof fn lemma_scan_childless(bs: Seq<Bullet>, es: Seq<Enemy>, n: int)
    requires
        0 <= n <= bs.len(),
        childless(es),
    ensures
        forall|k: int|
            0 <= k < scan_hits(bs, es, n).2.len() ==> child_count(
                (#[trigger] scan_hits(bs, es, n).2[k]).death_method,
            ) == 0,
    decreases n,
{
    if n > 0 {
        lemma_scan_childless(bs, es, n - 1);
        lemma_scan_resolves(bs, es, n - 1);
        let prev = scan_hits(bs, es, n - 1);
        let t = first_struck(bs[n - 1], prev.1, 0);
        lemma_first_struck(bs[n - 1], prev.1, 0);
        if can_hit(bs[n - 1]) && t < prev.1.len() {
            assert(prev.1[t] == Enemy::with_health(es[t], prev.1[t].state_shared.health));
            assert(child_count(es[t].state_shared.death_method) == 0);
        }
    }
}

impl GameStateGame {
    /// The frames along a resolution pass that ran to its end on childless
    /// enemies: the last of them is quiet.
    proof fn lemma_pass_leaves_quiet(
        &self,
        start: GameStateGame,
        after_player: GameStateGame,
        after_homing: GameStateGame,
        after_scan: GameStateGame,
        before_gc: GameStateGame,
        deaths: Seq<DeathRecord>,
    )
        requires
            childless(start.enemies@),
            after_player.enemies@ == start.enemies@,
            after_player.player.collision_rect == start.player.collision_rect,
            after_player.bullets@.len() == start.bullets@.len(),
            forall|k: int|
                0 <= k < start.bullets@.len() ==> (#[trigger] after_player.bullets@[k]).hurt_type
                    == start.bullets@[k].hurt_type && after_player.bullets@[k].collision_rect
                    == start.bullets@[k].collision_rect && after_player.bullets@[k].pos
                    == start.bullets@[k].pos,
            after_player.player.is_normal() ==> forall|i: int|
                0 <= i < start.bullets@.len() ==> !hits_player(
                    #[trigger] start.bullets@[i],
                    start.player,
                ),
            after_homing.bullets@ == after_player.bullets@,
            after_homing.player.collision_rect == after_player.player.collision_rect,
            after_homing.enemies@.len() == after_player.enemies@.len(),
            forall|k: int|
                0 <= k < after_player.enemies@.len() ==> #[trigger] after_homing.enemies@[k]
                    == Enemy::with_health(
                    after_player.enemies@[k],
                    after_homing.enemies@[k].state_shared.health,
                ),
            after_homing.player.is_normal() ==> after_player.player.is_normal() && forall|i: int|
                0 <= i < after_player.enemies@.len() ==> !rams_player(
                    #[trigger] after_player.enemies@[i],
                    after_player.player,
                ),
            ({
                let sc = scan_hits(
                    after_homing.bullets@,
                    after_homing.enemies@,
                    after_homing.bullets@.len() as int,
                );
                &&& after_scan.bullets@ == sc.0
                &&& after_scan.enemies@ == sc.1
                &&& deaths == sc.2
            }),
            after_scan.player == after_homing.player,
            before_gc.player == after_scan.player,
            before_gc.bullets@ == after_scan.bullets@,
            before_gc.enemies@.subrange(0, after_scan.enemies@.len() as int)
                == after_scan.enemies@,
            before_gc.enemies@.len() == after_scan.enemies@.len() + children(
                deaths,
                deaths.len() as int,
            ).len(),
            self.player == before_gc.player,
            self.bullets@ == kept_bullets(before_gc.bullets@),
            self.enemies@ == kept_enemies(before_gc.enemies@),
        ensures
            frame_is_quiet(self),
    {
        let bs = after_homing.bullets@;
        let es = after_homing.enemies@;
        let n = bs.len() as int;
        let sc = scan_hits(bs, es, n);
        lemma_scan_resolves(bs, es, n);
        assert forall|j: int| 0 <= j < es.len() implies child_count(
            (#[trigger] es[j]).state_shared.death_method,
        ) == 0 by {
            assert(es[j] == Enemy::with_health(start.enemies@[j], es[j].state_shared.health));
        }
        lemma_scan_childless(bs, es, n);
        lemma_no_children(deaths, deaths.len() as int);
        assert(before_gc.enemies@ =~= after_scan.enemies@);
        lemma_kept_bullets_from(before_gc.bullets@);
        lemma_kept_enemies_from(before_gc.enemies@);
        let fb = self.bullets@;
        let fe = self.enemies@;
        assert forall|i: int| 0 <= i < fb.len() implies !(can_hit(#[trigger] fb[i]) && first_struck(
            fb[i],
            fe,
            0,
        ) < fe.len()) by {
            let x = fb[i];
            if can_hit(x) && first_struck(x, fe, 0) < fe.len() {
                lemma_first_struck(x, fe, 0);
                let t = first_struck(x, fe, 0);
                let y = fe[t];
                assert(sc.0.contains(x));
                assert(sc.1.contains(y));
                let k = choose|k: int| 0 <= k < sc.0.len() && sc.0[k] == x;
                let j = choose|j: int| 0 <= j < sc.1.len() && sc.1[j] == y;
                assert(!strikes(sc.0[k], sc.1[j]));
            }
        }
        if self.player.is_normal() {
            assert forall|i: int| 0 <= i < fb.len() implies !hits_player(
                #[trigger] fb[i],
                self.player,
            ) by {
                let x = fb[i];
                assert(sc.0.contains(x));
                let k = choose|k: int| 0 <= k < sc.0.len() && sc.0[k] == x;
                assert(!hits_player(start.bullets@[k], start.player));
            }
            assert forall|i: int| 0 <= i < fe.len() implies !rams_player(
                #[trigger] fe[i],
                self.player,
            ) by {
                let y = fe[i];
                assert(sc.1.contains(y));
                let j = choose|j: int| 0 <= j < sc.1.len() && sc.1[j] == y;
                assert(!rams_player(after_player.enemies@[j], after_player.player));
            }
        }
    }
}

/// The bullets that the enemies `es` fire in one update each, in order, for
/// the first `n` of them.
pub open spec fn all_shots(es: Seq<Enemy>, dt: u32, ds: Seq<EnemyDraws>, n: int) -> Seq<Bullet>
    decreases n,
{
    if n <= 0 {
        Seq::empty()
    } else {
        all_shots(es, dt, ds, n - 1) + shots(es[n - 1], dt, ds[n - 1])
    }
}

/// Each enemy of `es` after its own update.
pub open spec fn enemies_after(
    es: Seq<Enemy>,
    dt: u32,
    ds: Seq<EnemyDraws>,
    player_pos: Vec2,
    clock: u64,
) -> Seq<Enemy> {
    Seq::new(es.len(), |k: int| enemy_after(es[k], dt, ds[k], player_pos, clock))
}

/// Some homing enemy of `es` goes below the screen in its update.
pub open spec fn any_lost(
    es: Seq<Enemy>,
    dt: u32,
    ds: Seq<EnemyDraws>,
    player_pos: Vec2,
    clock: u64,
) -> bool {
    exists|k: int| 0 <= k < ds.len() && k < es.len() && #[trigger] lost_below(es[k], dt, ds[k], player_pos, clock)
}

/// Every enemy of `es` updated with its draws from `ds`, and the bullets they
/// fire appended to `bs`.
pub open spec fn enemies_step(
    es: Seq<Enemy>,
    new_es: Seq<Enemy>,
    bs: Seq<Bullet>,
    new_bs: Seq<Bullet>,
    dt: u32,
    ds: Seq<EnemyDraws>,
    player_pos: Vec2,
    clock: u64,
) -> bool {
    &&& ds.len() == es.len()
    &&& forall|k: int| 0 <= k < ds.len() ==> (#[trigger] ds[k]).wf()
    &&& new_es == enemies_after(es, dt, ds, player_pos, clock)
    &&& new_bs == bs + all_shots(es, dt, ds, es.len() as int)
}

proof fn lemma_all_shots_prefix(
    es: Seq<Enemy>,
    dt: u32,
    ds: Seq<EnemyDraws>,
    ds2: Seq<EnemyDraws>,
    n: int,
)
    requires
        0 <= n <= ds.len(),
        n <= ds2.len(),
        forall|k: int| 0 <= k < n ==> ds[k] == ds2[k],
    ensures
        all_shots(es, dt, ds, n) == all_shots(es, dt, ds2, n),
    decreases n,
{
    if n > 0 {
        lemma_all_shots_prefix(es, dt, ds, ds2, n - 1);
    }
}

proof fn lemma_any_lost_push(
    es: Seq<Enemy>,
    dt: u32,
    ds: Seq<EnemyDraws>,
    d: EnemyDraws,
    player_pos: Vec2,
    clock: u64,
)
    requires
        ds.len() < es.len(),
    ensures
        any_lost(es, dt, ds.push(d), player_pos, clock) == (any_lost(es, dt, ds, player_pos, clock)
            || lost_below(es[ds.len() as int], dt, d, player_pos, clock)),
{
    let ds2 = ds.push(d);
    if any_lost(es, dt, ds, player_pos, clock) {
        let k = choose|k: int| 0 <= k < ds.len() && k < es.len() && #[trigger] lost_below(es[k], dt, ds[k], player_pos, clock);
        assert(ds2[k] == ds[k]);
    }
    if lost_below(es[ds.len() as int], dt, d, player_pos, clock) {
        assert(ds2[ds.len() as int] == d);
    }
    if any_lost(es, dt, ds2, player_pos, clock) {
        let k = choose|k: int| 0 <= k < ds2.len() && k < es.len() && #[trigger] lost_below(es[k], dt, ds2[k], player_pos, clock);
        if k < ds.len() {
            assert(ds2[k] == ds[k]);
        }
    }
}

/// First step of the resolution pass, from `o` to `n`: the first bullet that
/// hurts the player and touches the ship, while the ship is in its normal
/// state, costs a life, makes the ship invisible and is used up; at no life
/// left the match ends with the score.
pub open spec fn player_hits_step(o: GameStateGame, n: GameStateGame, r: Option<GameStateCommand>) -> bool {
    &&& n.wave_manager == o.wave_manager
    &&& n.enemies@ == o.enemies@
    &&& n.player_score == o.player_score
    &&& n.player == (Player { state: n.player.state, ..o.player })
    &&& (!o.player.is_normal() || forall|i: int|
        0 <= i < o.bullets@.len() ==> !hits_player(#[trigger] o.bullets@[i], o.player)) ==> {
        &&& r is None
        &&& n.bullets@ == o.bullets@
        &&& n.player_lives == o.player_lives
        &&& n.player.state == o.player.state
    }
    &&& forall|i: int|
        0 <= i < o.bullets@.len() && o.player.is_normal() && hits_player(
            #[trigger] o.bullets@[i],
            o.player,
        ) && (forall|j: int| 0 <= j < i ==> !hits_player(#[trigger] o.bullets@[j], o.player)) ==> {
            &&& n.player_lives == life_lost(o.player_lives)
            &&& n.player.state == PlayerState::Invisible(PLAYER_TIME_INVISIBLE)
            &&& n.bullets@ == o.bullets@.update(i, Bullet { is_kill: true, ..o.bullets@[i] })
            &&& r == if n.player_lives <= 0 {
                Some(to_menu(o.player_score))
            } else {
                None
            }
        }
}

/// Second step of the resolution pass: the first homing enemy that rams the
/// ship while it is not invisible costs a life, makes the ship invisible and
/// dies.
pub open spec fn homing_step(o: GameStateGame, n: GameStateGame) -> bool {
    &&& n.wave_manager == o.wave_manager
    &&& n.bullets@ == o.bullets@
    &&& n.player_score == o.player_score
    &&& n.player == (Player { state: n.player.state, ..o.player })
    &&& (!o.player.is_normal() || forall|i: int|
        0 <= i < o.enemies@.len() ==> !rams_player(#[trigger] o.enemies@[i], o.player)) ==> {
        &&& n.enemies@ == o.enemies@
        &&& n.player_lives == o.player_lives
        &&& n.player.state == o.player.state
    }
    &&& forall|i: int|
        0 <= i < o.enemies@.len() && o.player.is_normal() && rams_player(
            #[trigger] o.enemies@[i],
            o.player,
        ) && (forall|j: int| 0 <= j < i ==> !rams_player(#[trigger] o.enemies@[j], o.player)) ==> {
            &&& n.player_lives == life_lost(o.player_lives)
            &&& n.player.state == PlayerState::Invisible(PLAYER_TIME_INVISIBLE)
            &&& n.enemies@ == o.enemies@.update(i, Enemy::with_health(o.enemies@[i], 0))
        }
}

/// Third step of the resolution pass: the bullets are scanned against the
/// enemies, and the enemies that die are recorded in `deaths`.
pub open spec fn scan_step(o: GameStateGame, n: GameStateGame, deaths: Seq<DeathRecord>) -> bool {
    let sc = scan_hits(o.bullets@, o.enemies@, o.bullets@.len() as int);
    &&& n.bullets@ == sc.0
    &&& n.enemies@ == sc.1
    &&& deaths == sc.2
    &&& n.wave_manager == (WaveManager {
        last_enemy_death_reason: if sc.3 {
            LastEnemyDeathReason::Player
        } else {
            o.wave_manager.last_enemy_death_reason
        },
        ..o.wave_manager
    })
    &&& n.player == o.player
    &&& n.player_score == o.player_score
    &&& n.player_lives == o.player_lives
}

/// Fourth step of the resolution pass: each death scores, and a death that
/// spawns children leaves them, fanned out, after the other enemies.
pub open spec fn deaths_step(
    o: GameStateGame,
    n: GameStateGame,
    deaths: Seq<DeathRecord>,
    resources: &Resources,
) -> bool {
    &&& n.player_score == score_after(o.player_score, deaths, deaths.len() as int)
    &&& n.enemies@.subrange(0, o.enemies@.len() as int) == o.enemies@
    &&& minis_made(n.enemies@, o.enemies@.len() as int, children(deaths, deaths.len() as int), resources)
    &&& n.bullets@ == o.bullets@
    &&& n.player == o.player
    &&& n.player_lives == o.player_lives
    &&& n.wave_manager == o.wave_manager
}

/// Last step of the resolution pass: what is used up, dead or gone is removed.
pub open spec fn gc_step(o: GameStateGame, n: GameStateGame) -> bool {
    &&& n.bullets@ == kept_bullets(o.bullets@)
    &&& n.enemies@ == kept_enemies(o.enemies@)
    &&& n.wave_manager == o.wave_manager
    &&& n.player == o.player
    &&& n.player_score == o.player_score
    &&& n.player_lives == o.player_lives
}

/// The whole resolution pass from `o` to `n`, in its order. As soon as the
/// ship has no life left after a bullet or a homing enemy reached it, what is
/// used up or dead is removed and the match ends, with the command returned.
pub open spec fn pass_step(
    o: GameStateGame,
    n: GameStateGame,
    r: Option<GameStateCommand>,
    resources: &Resources,
) -> bool {
    exists|s1: GameStateGame, r1: Option<GameStateCommand>|
        #[trigger] player_hits_step(o, s1, r1) && if r1 is Some {
            gc_step(s1, n) && r == r1
        } else {
            exists|s2: GameStateGame|
                #[trigger] homing_step(s1, s2) && if s2.player_lives <= 0 {
                    gc_step(s2, n) && r == Some(to_menu(s2.player_score))
                } else {
                    exists|s3: GameStateGame, deaths: Seq<DeathRecord>|
                        #[trigger] scan_step(s2, s3, deaths) && exists|s4: GameStateGame|
                            #[trigger] deaths_step(s3, s4, deaths, resources) && gc_step(s4, n)
                                && r is None
                }
        }
}

proof fn lemma_pass_ends_on_bullet(
    o: GameStateGame,
    s1: GameStateGame,
    n: GameStateGame,
    r1: Option<GameStateCommand>,
    resources: &Resources,
)
    requires
        player_hits_step(o, s1, r1),
        r1 is Some,
        gc_step(s1, n),
    ensures
        pass_step(o, n, r1, resources),
{
}

proof fn lemma_pass_ends_on_ram(
    o: GameStateGame,
    s1: GameStateGame,
    s2: GameStateGame,
    n: GameStateGame,
    resources: &Resources,
)
    requires
        player_hits_step(o, s1, None),
        homing_step(s1, s2),
        s2.player_lives <= 0,
        gc_step(s2, n),
    ensures
        pass_step(o, n, Some(to_menu(s2.player_score)), resources),
{
}

proof fn lemma_pass_runs_through(
    o: GameStateGame,
    s1: GameStateGame,
    s2: GameStateGame,
    s3: GameStateGame,
    deaths: Seq<DeathRecord>,
    s4: GameStateGame,
    n: GameStateGame,
    resources: &Resources,
)
    requires
        player_hits_step(o, s1, None),
        homing_step(s1, s2),
        s2.player_lives > 0,
        scan_step(s2, s3, deaths),
        deaths_step(s3, s4, deaths, resources),
        gc_step(s4, n),
    ensures
        pass_step(o, n, None, resources),
{
}

/// A cleared wave gives a life, up to the maximum, and a bonus that is
/// larger when the last enemy was shot than when it got away.
pub open spec fn cleared_step(o: GameStateGame, n: GameStateGame) -> bool {
    &&& n.player_lives == if o.player_lives + 1 > PLAYER_LIVES_MAX {
        PLAYER_LIVES_MAX as int
    } else {
        o.player_lives + 1
    }
    &&& n.player_score == score_add(
        o.player_score,
        match o.wave_manager.last_enemy_death_reason {
            LastEnemyDeathReason::Environment => SCORE_SURVIVED_ALL,
            LastEnemyDeathReason::Player => SCORE_KILL_ALL,
        },
    )
    &&& n.wave_manager == o.wave_manager
    &&& n.player == o.player
    &&& n.bullets@ == o.bullets@
    &&& n.enemies@ == o.enemies@
}

/// Every bullet moves by its velocity over `dt`.
pub open spec fn bullets_step(o: GameStateGame, n: GameStateGame, dt: u32) -> bool {
    &&& n.bullets@.len() == o.bullets@.len()
    &&& forall|k: int|
        0 <= k < o.bullets@.len() ==> {
            let ob = o.bullets@[k];
            let b = #[trigger] n.bullets@[k];
            &&& bullet_shape(b)
            &&& b.pos.x == ob.pos.x + ob.vel.x * dt
            &&& b.pos.y == ob.pos.y + ob.vel.y * dt
            &&& b.hurt_type == ob.hurt_type
            &&& b.is_kill == ob.is_kill
        }
    &&& n.enemies@ == o.enemies@
    &&& n.wave_manager == o.wave_manager
    &&& n.player == o.player
    &&& n.player_score == o.player_score
    &&& n.player_lives == o.player_lives
}

/// The wave manager's update of a frame, with the message it gives.
pub open spec fn wave_phase(
    o: GameStateGame,
    n: GameStateGame,
    dt: u32,
    msg: Option<WaveManagerMessage>,
    resources: &Resources,
) -> bool {
    &&& crate::wave::wave_update_spec(
        o.wave_manager,
        n.wave_manager,
        dt,
        o.enemies@,
        n.enemies@,
        msg,
        resources,
    )
    &&& n.bullets@ == o.bullets@
    &&& n.player == o.player
    &&& n.player_score == o.player_score
    &&& n.player_lives == o.player_lives
}

/// The enemies' updates of a frame, with the draws `ds`.
pub open spec fn enemies_phase(o: GameStateGame, n: GameStateGame, dt: u32, ds: Seq<EnemyDraws>) -> bool {
    let pp = o.player.pos;
    let clock = o.wave_manager.internal_timer;
    &&& enemies_step(o.enemies@, n.enemies@, o.bullets@, n.bullets@, dt, ds, pp, clock)
    &&& n.wave_manager == (WaveManager {
        last_enemy_death_reason: if any_lost(o.enemies@, dt, ds, pp, clock) {
            LastEnemyDeathReason::Environment
        } else {
            o.wave_manager.last_enemy_death_reason
        },
        ..o.wave_manager
    })
    &&& n.player == o.player
    &&& n.player_score == o.player_score
    &&& n.player_lives == o.player_lives
}

/// The ship's update at the end of a frame.
pub open spec fn player_phase(o: GameStateGame, n: GameStateGame, dt: u32, input: PlayerInput) -> bool {
    &&& crate::player::player_update_spec(o.player, n.player, input, dt, o.bullets@, n.bullets@)
    &&& n.enemies@ == o.enemies@
    &&& n.wave_manager == o.wave_manager
    &&& n.player_score == o.player_score
    &&& n.player_lives == o.player_lives
}

/// One frame of a match from `o` to `n`: the wave manager, the level bonus
/// if it cleared a wave, the enemies, the bullets, the resolution pass, and,
/// unless the match ended there, the ship.
pub open spec fn frame_step(
    o: GameStateGame,
    n: GameStateGame,
    r: Option<GameStateCommand>,
    dt: u32,
    input: PlayerInput,
    resources: &Resources,
) -> bool {
    exists|w: GameStateGame, msg: Option<WaveManagerMessage>|
        #[trigger] wave_phase(o, w, dt, msg, resources) && exists|c: GameStateGame|
            #[trigger] cleared_phase(w, c, msg) && exists|e: GameStateGame, ds: Seq<EnemyDraws>|
                #[trigger] enemies_phase(c, e, dt, ds) && exists|b: GameStateGame|
                    #[trigger] bullets_step(e, b, dt) && exists|p: GameStateGame|
                        #[trigger] pass_step(b, p, r, resources) && if r is Some {
                            n == p
                        } else {
                            player_phase(p, n, dt, input)
                        }
}

/// The level bonus, given when the wave manager says the level is cleared.
pub open spec fn cleared_phase(o: GameStateGame, n: GameStateGame, msg: Option<WaveManagerMessage>) -> bool {
    if msg is Some {
        cleared_step(o, n)
    } else {
        n == o
    }
}

proof fn lemma_frame(
    o: GameStateGame,
    w: GameStateGame,
    msg: Option<WaveManagerMessage>,
    c: GameStateGame,
    e: GameStateGame,
    ds: Seq<EnemyDraws>,
    b: GameStateGame,
    p: GameStateGame,
    n: GameStateGame,
    r: Option<GameStateCommand>,
    dt: u32,
    input: PlayerInput,
    resources: &Resources,
)
    requires
        wave_phase(o, w, dt, msg, resources),
        cleared_phase(w, c, msg),
        enemies_phase(c, e, dt, ds),
        bullets_step(e, b, dt),
        pass_step(b, p, r, resources),
        if r is Some {
            n == p
        } else {
            player_phase(p, n, dt, input)
        },
    ensures
        frame_step(o, n, r, dt, input, resources),
{
}

} // verus!
