use vstd::prelude::*;

use crate::bullet::{new_bullet, pos_in_reach, Bullet, BulletHurtType};
use crate::constants::{
    ENEMY_ANIM_CYCLE, ENEMY_ANIM_TIME_SPAWN, ENEMY_MAX_BURST_COUNT, ENEMY_MINI_ANIM_TIME_SPAWN,
    ENEMY_MINI_HOMING_TIME_MAX, ENEMY_RECOIL, ENEMY_SHOOT_BURST_TIME, ENEMY_SHOOT_TIME,
    ENEMY_SPEED, ENEMY_SPEED_HOMING_X, ENEMY_SPEED_HOMING_Y, GAME_SIZE_X, GAME_SIZE_Y,
};
use crate::geom::{rects_overlap, vec2, Rect, Vec2};
use crate::resources::{cue, sound_cue, SoundCue, SoundIdentifier, Sprite};
use crate::rng::gen_range;
use crate::wave::{LastEnemyDeathReason, WaveManager};

verus! {

#[derive(Clone, Copy, Debug, PartialEq, Eq, Structural)]
pub enum EnemyState {
    Spawning(EnemyStateSpawning),
    Normal(EnemyStateNormal),
    Shooting(EnemyStateShooting),
    Homing(EnemyStateHoming),
}

/// What happens when the enemy dies: nothing, or that many minis appear.
#[derive(Clone, Copy, Debug, PartialEq, Eq, Structural)]
pub enum EnemyDeathMethod {
    Vanish,
    SpawnChildren(i32),
}

/// Request of a state to switch the enemy to another state.
#[derive(Clone, Copy, Debug, PartialEq, Eq, Structural)]
pub enum EnemyCommand {
    ChangeState(EnemyState),
}

#[derive(Clone, Copy, Debug, PartialEq, Eq, Structural)]
pub enum EnemyType {
    Normal,
    Mini,
}

#[derive(Clone, Copy, Debug, PartialEq, Eq, Structural)]
pub enum EnemyColor {
    Purple,
    Green,
    Red,
}

pub open spec fn color_at(i: int) -> EnemyColor {
    if i == 0 {
        EnemyColor::Purple
    } else if i == 1 {
        EnemyColor::Green
    } else {
        EnemyColor::Red
    }
}

impl EnemyColor {
    /// The color at an index of the list purple, green, red.
    pub fn from_index(i: u32) -> (r: EnemyColor)
        requires
            i < 3,
        ensures
            r == color_at(i as int),
    {
        if i == 0 {
            EnemyColor::Purple
        } else if i == 1 {
            EnemyColor::Green
        } else {
            EnemyColor::Red
        }
    }

    /// A color drawn at random.
    pub fn random() -> EnemyColor {
        EnemyColor::from_index(gen_range(0, 3))
    }
}

/// Fields that every state of an enemy shares.
#[derive(Clone, Copy, Debug, PartialEq, Eq, Structural)]
pub struct EnemyStateShared {
    pub sprite: Sprite,
    pub pos: Vec2,
    pub collision_rect: Rect,
    pub health: i32,
    pub death_method: EnemyDeathMethod,
    pub animation_timer: i64,
    pub enemy_type: EnemyType,
    pub enemy_color: EnemyColor,
    /// Time left before a mini starts homing in on the player.
    pub charge_timer_optional: Option<i64>,
}

#[derive(Clone, Copy, Debug, PartialEq, Eq, Structural)]
pub struct EnemyStateNormal {
    pub shoot_timer: i64,
}

#[derive(Clone, Copy, Debug, PartialEq, Eq, Structural)]
pub struct EnemyStateHoming {}

#[derive(Clone, Copy, Debug, PartialEq, Eq, Structural)]
pub struct EnemyStateShooting {
    pub shots_left: i32,
    pub shoot_timer: i64,
}

#[derive(Clone, Copy, Debug, PartialEq, Eq, Structural)]
pub struct EnemyStateSpawning {
    pub spawn_timer: i64,
}

#[derive(Clone, Copy, Debug, PartialEq, Eq, Structural)]
pub struct Enemy {
    pub state_shared: EnemyStateShared,
    pub state: EnemyState,
}

/// The random choices of one enemy update: a jitter on each axis in
/// `[0, 2000)` (1000 stands still), the length of a burst, and whether a shot
/// is a pair of bullets.
#[derive(Clone, Copy, Debug, PartialEq, Eq, Structural)]
pub struct EnemyDraws {
    pub jitter_x: u32,
    pub jitter_y: u32,
    pub shot_count: i32,
    pub two_bullets: bool,
}

pub const JITTER_RANGE: u32 = 2000;
pub const SWAY_RANGE: u32 = 1000;
/// Period of the homing sway, in milliseconds.
pub const SWAY_PERIOD: u64 = 314;
pub const VIEW_PAD_X: i64 = 4000;
pub const VIEW_PAD_TOP: i64 = 7000;
pub const VIEW_PAD_BOTTOM: i64 = 60000;
/// Offset of a single shot from the enemy's position.
pub const SHOT_OFFSET_Y: i64 = -3000;
/// Enemies jitter at half speed while they shoot.
pub const ENEMY_SHOOTING_SPEED: i64 = 25;

impl EnemyDraws {
    pub open spec fn wf(&self) -> bool {
        &&& self.jitter_x < JITTER_RANGE
        &&& self.jitter_y < JITTER_RANGE
        &&& 1 <= self.shot_count < ENEMY_MAX_BURST_COUNT
    }

    /// Draws the random choices of one update.
    pub fn random() -> (r: EnemyDraws)
        ensures
            r.wf(),
    {
        EnemyDraws {
            jitter_x: gen_range(0, JITTER_RANGE),
            jitter_y: gen_range(0, JITTER_RANGE),
            shot_count: gen_range(1, ENEMY_MAX_BURST_COUNT as u32) as i32,
            two_bullets: gen_range(0, 2) > 0,
        }
    }
}

/// Displacement of a jitter draw `j` at `speed` over `dt`: from `-speed * dt`
/// up to nearly `speed * dt`.
pub open spec fn jitter_step(j: u32, speed: i64, dt: u32) -> int {
    (j * speed * dt) / 1000 - speed * dt
}

/// Time an enemy of this type takes to appear.
pub open spec fn spawn_end(t: EnemyType) -> i64 {
    match t {
        EnemyType::Normal => ENEMY_ANIM_TIME_SPAWN,
        EnemyType::Mini => ENEMY_MINI_ANIM_TIME_SPAWN,
    }
}

pub open spec fn clamp_coord(v: i64, lo: i64, hi: i64) -> i64 {
    if v < lo {
        lo
    } else if v > hi {
        hi
    } else {
        v
    }
}

/// The position moved into the playable part of the screen.
pub open spec fn clamp_view(p: Vec2) -> Vec2 {
    Vec2 {
        x: clamp_coord(p.x, VIEW_PAD_X, (GAME_SIZE_X - VIEW_PAD_X) as i64),
        y: clamp_coord(p.y, VIEW_PAD_TOP, (GAME_SIZE_Y - VIEW_PAD_BOTTOM) as i64),
    }
}

/// The collision box of an enemy: its sprite, centered horizontally on its
/// position and hanging down from it.
pub open spec fn enemy_rect(sprite: Sprite, pos: Vec2) -> Rect {
    Rect { x: (pos.x - sprite.w / 2) as i64, y: pos.y, w: sprite.w, h: sprite.h }
}

/// The wing animation timer after `dt`, kept within one cycle.
pub open spec fn anim_next(a: i64, dt: u32) -> i64 {
    let t = a + dt;
    if t <= ENEMY_ANIM_CYCLE {
        t as i64
    } else if t - ENEMY_ANIM_CYCLE <= ENEMY_ANIM_CYCLE {
        (t - ENEMY_ANIM_CYCLE) as i64
    } else {
        (t % ENEMY_ANIM_CYCLE as int) as i64
    }
}

/// Largest distance an enemy moves in one update of `dt`, besides being put
/// back into view.
pub open spec fn step_bound(dt: u32) -> int {
    100 * dt + 10000
}

pub open spec fn abs(v: int) -> int {
    if v < 0 {
        -v
    } else {
        v
    }
}

pub open spec fn max(a: int, b: int) -> int {
    if a < b {
        b
    } else {
        a
    }
}

/// `q` is within one step of `p`, or within the screen's size of the origin.
pub open spec fn drift_ok(p: Vec2, q: Vec2, dt: u32) -> bool {
    &&& abs(q.x as int) <= max(abs(p.x as int), GAME_SIZE_X as int) + step_bound(dt)
    &&& abs(q.y as int) <= max(abs(p.y as int), GAME_SIZE_Y as int) + step_bound(dt)
}

impl EnemyStateShared {
    pub open spec fn wf(&self) -> bool {
        &&& self.sprite.wf()
        &&& self.collision_rect.w == self.sprite.w
        &&& self.collision_rect.h == self.sprite.h
        &&& self.health >= 0
        &&& 0 <= self.animation_timer <= ENEMY_ANIM_CYCLE
        &&& match self.death_method {
            EnemyDeathMethod::SpawnChildren(n) => n >= 0,
            EnemyDeathMethod::Vanish => true,
        }
        &&& match self.charge_timer_optional {
            Some(c) => -(u32::MAX as int) <= c <= ENEMY_MINI_HOMING_TIME_MAX,
            None => true,
        }
    }

    /// Sprite, health, death method, type, color and charge timer agree.
    pub open spec fn same_identity(&self, other: EnemyStateShared) -> bool {
        &&& self.sprite == other.sprite
        &&& self.health == other.health
        &&& self.death_method == other.death_method
        &&& self.enemy_type == other.enemy_type
        &&& self.enemy_color == other.enemy_color
    }
}

impl Enemy {
    pub open spec fn wf(&self) -> bool {
        &&& self.state_shared.wf()
        &&& match self.state {
            EnemyState::Spawning(s) => 0 <= s.spawn_timer < spawn_end(
                self.state_shared.enemy_type,
            ),
            EnemyState::Normal(s) => 0 <= s.shoot_timer <= ENEMY_SHOOT_TIME,
            EnemyState::Shooting(s) => s.shots_left >= 1 && 0 < s.shoot_timer
                <= ENEMY_SHOOT_BURST_TIME,
            EnemyState::Homing(_) => true,
        }
        &&& match self.state_shared.charge_timer_optional {
            Some(c) => self.state is Homing || c > 0,
            None => true,
        }
    }

    /// The same enemy with another health.
    pub open spec fn with_health(e: Enemy, health: i32) -> Enemy {
        Enemy { state_shared: EnemyStateShared { health, ..e.state_shared }, ..e }
    }

    pub open spec fn is_homing(&self) -> bool {
        self.state is Homing
    }

    /// A new enemy, appearing at `pos`. A mini starts homing after
    /// `homing_delay`; a normal enemy never does.
    pub fn new(
        pos: Vec2,
        sprite: Sprite,
        health: i32,
        death_method: EnemyDeathMethod,
        enemy_type: EnemyType,
        enemy_color: EnemyColor,
        homing_delay: u32,
    ) -> (r: Enemy)
        requires
            sprite.wf(),
            health >= 0,
            match death_method {
                EnemyDeathMethod::SpawnChildren(n) => n >= 0,
                EnemyDeathMethod::Vanish => true,
            },
            enemy_type == EnemyType::Mini ==> 0 < homing_delay <= ENEMY_MINI_HOMING_TIME_MAX,
        ensures
            r.wf(),
            r.state == EnemyState::Spawning(EnemyStateSpawning { spawn_timer: 0 }),
            r.state_shared.pos == pos,
            r.state_shared.sprite == sprite,
            r.state_shared.collision_rect == (Rect { x: 0, y: 0, w: sprite.w, h: sprite.h }),
            r.state_shared.health == health,
            r.state_shared.death_method == death_method,
            r.state_shared.enemy_type == enemy_type,
            r.state_shared.enemy_color == enemy_color,
            r.state_shared.animation_timer == 0,
            r.state_shared.charge_timer_optional == match enemy_type {
                EnemyType::Normal => None,
                EnemyType::Mini => Some(homing_delay as i64),
            },
    {
        let charge_timer_optional = match enemy_type {
            EnemyType::Normal => None,
            EnemyType::Mini => Some(homing_delay as i64),
        };
        Enemy {
            state_shared: EnemyStateShared {
                sprite,
                pos,
                collision_rect: Rect::new(0, 0, sprite.w, sprite.h),
                health,
                death_method,
                animation_timer: 0,
                enemy_type,
                enemy_color,
                charge_timer_optional,
            },
            state: EnemyState::Spawning(EnemyStateSpawning { spawn_timer: 0 }),
        }
    }

    pub fn overlaps(&self, other_rect: &Rect) -> (r: bool)
        ensures
            r == rects_overlap(self.state_shared.collision_rect, *other_rect),
    {
        self.state_shared.collision_rect.overlaps(other_rect)
    }

    /// Puts a position inside the playable part of the screen, which keeps
    /// enemies off the edges and above the player's band.
    pub fn clamp_in_view(pos: &mut Vec2)
        ensures
            *final(pos) == clamp_view(*old(pos)),
    {
        let x_padding: i64 = VIEW_PAD_X;
        if pos.x < x_padding {
            pos.x = x_padding;
        } else if pos.x > GAME_SIZE_X - x_padding {
            pos.x = GAME_SIZE_X - x_padding;
        }
        let top_padding: i64 = VIEW_PAD_TOP;
        let bottom_padding: i64 = VIEW_PAD_BOTTOM;
        if pos.y < top_padding {
            pos.y = top_padding;
        } else if pos.y > GAME_SIZE_Y - bottom_padding {
            pos.y = GAME_SIZE_Y - bottom_padding;
        }
    }
}

/// Displacement of one jitter draw.
fn jitter(j: u32, speed: i64, dt: u32) -> (r: i64)
    requires
        j < JITTER_RANGE,
        0 <= speed <= 100,
    ensures
        r == jitter_step(j, speed, dt),
        -(speed * dt) <= r <= speed * dt,
{
    proof {
        assert(0 <= j * speed <= 200000) by (nonlinear_arith)
            requires
                j < 2000,
                0 <= speed <= 100,
        ;
        assert(0 <= (j * speed) * dt <= 200000 * (dt as int)) by (nonlinear_arith)
            requires
                0 <= j * speed <= 200000,
                dt >= 0,
        ;
        assert(0 <= speed * dt <= 100 * (dt as int)) by (nonlinear_arith)
            requires
                0 <= speed <= 100,
                dt >= 0,
        ;
        assert((j * speed * dt) / 1000 <= 2 * speed * dt) by (nonlinear_arith)
            requires
                j < 2000,
                0 <= speed,
                dt >= 0,
        ;
    }
    let prod: u64 = (j as u64) * (speed as u64) * (dt as u64);
    let r = (prod / 1000) as i64 - speed * (dt as i64);
    proof {
        let sd = speed * dt;
        assert(prod as int == j * sd) by (nonlinear_arith)
            requires
                prod as int == j * speed * dt,
                sd == speed * dt,
        ;
        assert(j * sd <= 2000 * sd) by (nonlinear_arith)
            requires
                j < 2000,
                sd >= 0,
        ;
        assert(prod / 1000 <= 2 * sd);
    }
    r
}

/// Advances the wing animation; says whether it wrapped around.
fn advance_animation(shared: &mut EnemyStateShared, dt: u32) -> (wrapped: bool)
    requires
        0 <= old(shared).animation_timer <= ENEMY_ANIM_CYCLE,
    ensures
        *final(shared) == (EnemyStateShared {
            animation_timer: anim_next(old(shared).animation_timer, dt),
            ..*old(shared)
        }),
        0 <= final(shared).animation_timer <= ENEMY_ANIM_CYCLE,
        wrapped == (old(shared).animation_timer + dt > ENEMY_ANIM_CYCLE),
{
    let t = shared.animation_timer + dt as i64;
    if t > ENEMY_ANIM_CYCLE {
        if t - ENEMY_ANIM_CYCLE <= ENEMY_ANIM_CYCLE {
            shared.animation_timer = t - ENEMY_ANIM_CYCLE;
        } else {
            shared.animation_timer = t % ENEMY_ANIM_CYCLE;
        }
        true
    } else {
        shared.animation_timer = t;
        false
    }
}


/// The charge timer after `dt`.
pub open spec fn charge_next(c: Option<i64>, dt: u32) -> Option<i64> {
    match c {
        Some(t) => Some((t - dt) as i64),
        None => None,
    }
}

/// A mini's charge timer runs out within `dt`.
pub open spec fn charge_runs_out(c: Option<i64>, dt: u32) -> bool {
    match c {
        Some(t) => t - dt <= 0,
        None => false,
    }
}

/// The bullets of one shot: a pair side by side, or one a little above the
/// enemy's position.
pub open spec fn volley(p: Vec2, sprite: Sprite, two: bool) -> Seq<Bullet> {
    if two {
        let off = sprite.w / 8;
        seq![
            new_bullet(Vec2 { x: (p.x + off) as i64, y: p.y }, BulletHurtType::Player),
            new_bullet(Vec2 { x: (p.x - off) as i64, y: p.y }, BulletHurtType::Player),
        ]
    } else {
        seq![new_bullet(Vec2 { x: p.x, y: (p.y + SHOT_OFFSET_Y) as i64 }, BulletHurtType::Player)]
    }
}

/// The homing sway at match time `t`, in per mille: it rises from 0 to 1000
/// and falls back over each period.
pub open spec fn sway_at(t: u64) -> u32 {
    let ph = t % SWAY_PERIOD;
    if 2 * ph < SWAY_PERIOD {
        (2000 * ph / SWAY_PERIOD as int) as u32
    } else {
        (2000 * (SWAY_PERIOD - ph) / SWAY_PERIOD as int) as u32
    }
}

fn homing_sway(t: u64) -> (r: u32)
    ensures
        r == sway_at(t),
        r <= SWAY_RANGE,
{
    let ph = t % SWAY_PERIOD;
    if 2 * ph < SWAY_PERIOD {
        (2000 * ph / SWAY_PERIOD) as u32
    } else {
        (2000 * (SWAY_PERIOD - ph) / SWAY_PERIOD) as u32
    }
}

/// Horizontal distance a homing enemy covers over `dt` at a sway in per mille.
pub open spec fn homing_dx(sway: u32, dt: u32) -> int {
    (ENEMY_SPEED_HOMING_X * sway * dt) / 1000
}

/// A shot is due in a burst whose timer stands at `t`.
pub open spec fn shot_due(t: i64, dt: u32) -> bool {
    t - dt <= 0
}

/// The state an enemy is in after one update of `dt` with the draws `d`.
pub open spec fn next_state(e: Enemy, dt: u32, d: EnemyDraws) -> EnemyState {
    match e.state {
        EnemyState::Spawning(s) => if s.spawn_timer + dt >= spawn_end(e.state_shared.enemy_type) {
            EnemyState::Normal(EnemyStateNormal { shoot_timer: 0 })
        } else {
            EnemyState::Spawning(EnemyStateSpawning { spawn_timer: (s.spawn_timer + dt) as i64 })
        },
        EnemyState::Normal(s) => if charge_runs_out(e.state_shared.charge_timer_optional, dt) {
            EnemyState::Homing(EnemyStateHoming {  })
        } else if s.shoot_timer + dt > ENEMY_SHOOT_TIME {
            EnemyState::Shooting(
                EnemyStateShooting { shots_left: d.shot_count, shoot_timer: ENEMY_SHOOT_BURST_TIME },
            )
        } else {
            EnemyState::Normal(EnemyStateNormal { shoot_timer: (s.shoot_timer + dt) as i64 })
        },
        EnemyState::Shooting(s) => {
            let fired = shot_due(s.shoot_timer, dt);
            let n = if fired {
                s.shots_left - 1
            } else {
                s.shots_left as int
            };
            if n <= 0 {
                EnemyState::Normal(EnemyStateNormal { shoot_timer: 0 })
            } else {
                EnemyState::Shooting(
                    EnemyStateShooting {
                        shots_left: n as i32,
                        shoot_timer: if fired {
                            ENEMY_SHOOT_BURST_TIME
                        } else {
                            (s.shoot_timer - dt) as i64
                        },
                    },
                )
            }
        },
        EnemyState::Homing(h) => EnemyState::Homing(h),
    }
}

/// Number of bullets an enemy fires in one update of `dt` with the draws `d`.
pub open spec fn bullets_fired(e: Enemy, dt: u32, d: EnemyDraws) -> int {
    match e.state {
        EnemyState::Shooting(s) => if shot_due(s.shoot_timer, dt) {
            if d.two_bullets {
                2
            } else {
                1
            }
        } else {
            0
        },
        _ => 0,
    }
}

/// All bullets of `s` from index `from` on are fresh enemy shots that can be
/// moved.
pub open spec fn fresh_enemy_shots(s: Seq<Bullet>, from: int) -> bool {
    forall|i: int|
        from <= i < s.len() ==> (#[trigger] s[i]).wf() && s[i].hurt_type == BulletHurtType::Player
            && !s[i].is_kill
}

impl Enemy {
    pub fn update_state_spawning(
        state_shared: &EnemyStateShared,
        dt: u32,
        state_data: &mut EnemyStateSpawning,
    ) -> (r: Option<EnemyCommand>)
        requires
            0 <= old(state_data).spawn_timer < spawn_end(state_shared.enemy_type),
        ensures
            final(state_data).spawn_timer == old(state_data).spawn_timer + dt,
            r == if old(state_data).spawn_timer + dt >= spawn_end(state_shared.enemy_type) {
                Some(EnemyCommand::ChangeState(EnemyState::Normal(EnemyStateNormal { shoot_timer: 0 })))
            } else {
                None
            },
    {
        state_data.spawn_timer = state_data.spawn_timer + dt as i64;
        // the two types appear at different paces
        let end_time = match state_shared.enemy_type {
            EnemyType::Normal => ENEMY_ANIM_TIME_SPAWN,
            EnemyType::Mini => ENEMY_MINI_ANIM_TIME_SPAWN,
        };
        if state_data.spawn_timer >= end_time {
            return Some(EnemyCommand::ChangeState(EnemyState::Normal(EnemyStateNormal { shoot_timer: 0 })));
        }
        None
    }

    pub fn update_state_normal(
        state_shared: &mut EnemyStateShared,
        dt: u32,
        state_data: &mut EnemyStateNormal,
        draws: &EnemyDraws,
    ) -> (r: Option<EnemyCommand>)
        requires
            old(state_shared).wf(),
            pos_in_reach(old(state_shared).pos),
            0 <= old(state_data).shoot_timer <= ENEMY_SHOOT_TIME,
            match old(state_shared).charge_timer_optional {
                Some(c) => c > 0,
                None => true,
            },
            draws.wf(),
        ensures
            ({
                let o = *old(state_shared);
                let n = *final(state_shared);
                let p = clamp_view(
                    Vec2 {
                        x: (o.pos.x + jitter_step(draws.jitter_x, ENEMY_SPEED, dt)) as i64,
                        y: (o.pos.y + jitter_step(draws.jitter_y, ENEMY_SPEED, dt)) as i64,
                    },
                );
                &&& n.wf()
                &&& n.same_identity(o)
                &&& n.pos == p
                &&& n.collision_rect == enemy_rect(o.sprite, p)
                &&& n.charge_timer_optional == charge_next(o.charge_timer_optional, dt)
                &&& final(state_data).shoot_timer == old(state_data).shoot_timer + dt
                &&& if charge_runs_out(o.charge_timer_optional, dt) {
                    &&& r == Some(EnemyCommand::ChangeState(EnemyState::Homing(EnemyStateHoming {  })))
                    &&& n.animation_timer == o.animation_timer
                } else {
                    &&& n.animation_timer == anim_next(o.animation_timer, dt)
                    &&& r == if old(state_data).shoot_timer + dt > ENEMY_SHOOT_TIME {
                        Some(
                            EnemyCommand::ChangeState(
                                EnemyState::Shooting(
                                    EnemyStateShooting {
                                        shots_left: draws.shot_count,
                                        shoot_timer: ENEMY_SHOOT_BURST_TIME,
                                    },
                                ),
                            ),
                        )
                    } else {
                        None
                    }
                }
            }),
    {
        let mut pos = vec2(
            state_shared.pos.x + jitter(draws.jitter_x, ENEMY_SPEED, dt),
            state_shared.pos.y + jitter(draws.jitter_y, ENEMY_SPEED, dt),
        );
        Self::clamp_in_view(&mut pos);
        state_shared.pos = pos;
        state_shared.collision_rect.x = pos.x - state_shared.sprite.w / 2;
        state_shared.collision_rect.y = pos.y;

        state_data.shoot_timer = state_data.shoot_timer + dt as i64;
        // a mini charges in on the player once its timer runs out
        match state_shared.charge_timer_optional {
            Some(c) => {
                let left = c - dt as i64;
                state_shared.charge_timer_optional = Some(left);
                if left <= 0 {
                    return Some(EnemyCommand::ChangeState(EnemyState::Homing(EnemyStateHoming {  })));
                }
            },
            None => {},
        }
        advance_animation(state_shared, dt);
        if state_data.shoot_timer > ENEMY_SHOOT_TIME {
            return Some(
                EnemyCommand::ChangeState(
                    EnemyState::Shooting(
                        EnemyStateShooting {
                            shoot_timer: ENEMY_SHOOT_BURST_TIME,
                            shots_left: draws.shot_count,
                        },
                    ),
                ),
            );
        }
        None
    }

    pub fn update_state_shooting(
        state_shared: &mut EnemyStateShared,
        dt: u32,
        bullets: &mut Vec<Bullet>,
        state_data: &mut EnemyStateShooting,
        draws: &EnemyDraws,
        sounds: &mut Vec<SoundCue>,
    ) -> (r: Option<EnemyCommand>)
        requires
            old(state_shared).wf(),
            pos_in_reach(old(state_shared).pos),
            old(state_data).shots_left >= 1,
            0 < old(state_data).shoot_timer <= ENEMY_SHOOT_BURST_TIME,
            draws.wf(),
        ensures
            ({
                let o = *old(state_shared);
                let n = *final(state_shared);
                let moved = clamp_view(
                    Vec2 {
                        x: (o.pos.x + jitter_step(draws.jitter_x, ENEMY_SHOOTING_SPEED, dt)) as i64,
                        y: (o.pos.y + jitter_step(draws.jitter_y, ENEMY_SHOOTING_SPEED, dt)) as i64,
                    },
                );
                let fired = shot_due(old(state_data).shoot_timer, dt);
                &&& n.wf()
                &&& n.same_identity(o)
                &&& n.charge_timer_optional == o.charge_timer_optional
                &&& n.animation_timer == anim_next(o.animation_timer, dt)
                &&& n.collision_rect == enemy_rect(o.sprite, n.pos)
                &&& if fired {
                    &&& final(state_data).shoot_timer == ENEMY_SHOOT_BURST_TIME
                    &&& final(state_data).shots_left == old(state_data).shots_left - 1
                    &&& final(bullets)@ == old(bullets)@ + volley(moved, o.sprite, draws.two_bullets)
                    &&& final(sounds)@ == old(sounds)@.push(cue(SoundIdentifier::EnemyShoot, 100))
                    &&& n.pos == (Vec2 { x: moved.x, y: (moved.y - ENEMY_RECOIL) as i64 })
                } else {
                    &&& final(state_data).shoot_timer == old(state_data).shoot_timer - dt
                    &&& final(state_data).shots_left == old(state_data).shots_left
                    &&& final(bullets)@ == old(bullets)@
                    &&& final(sounds)@ == old(sounds)@
                    &&& n.pos == moved
                }
                &&& r == if final(state_data).shots_left <= 0 {
                    Some(EnemyCommand::ChangeState(EnemyState::Normal(EnemyStateNormal { shoot_timer: 0 })))
                } else {
                    None
                }
            }),
    {
        let mut pos = vec2(
            state_shared.pos.x + jitter(draws.jitter_x, ENEMY_SHOOTING_SPEED, dt),
            state_shared.pos.y + jitter(draws.jitter_y, ENEMY_SHOOTING_SPEED, dt),
        );
        Self::clamp_in_view(&mut pos);
        state_data.shoot_timer = state_data.shoot_timer - dt as i64;
        if state_data.shoot_timer <= 0 {
            state_data.shoot_timer = ENEMY_SHOOT_BURST_TIME;
            state_data.shots_left = state_data.shots_left - 1;
            if draws.two_bullets {
                let off = state_shared.sprite.w / 8;
                bullets.push(Bullet::new(vec2(pos.x + off, pos.y), BulletHurtType::Player));
                bullets.push(Bullet::new(vec2(pos.x - off, pos.y), BulletHurtType::Player));
            } else {
                bullets.push(Bullet::new(vec2(pos.x, pos.y + SHOT_OFFSET_Y), BulletHurtType::Player));
            }
            sounds.push(sound_cue(SoundIdentifier::EnemyShoot, 100));
            // the enemy jumps up a little as it fires
            pos.y = pos.y - ENEMY_RECOIL;
        }
        state_shared.pos = pos;
        state_shared.collision_rect.x = pos.x - state_shared.sprite.w / 2;
        state_shared.collision_rect.y = pos.y;
        advance_animation(state_shared, dt);

        if state_data.shots_left <= 0 {
            return Some(EnemyCommand::ChangeState(EnemyState::Normal(EnemyStateNormal { shoot_timer: 0 })));
        }
        None
    }

    pub fn update_state_homing(
        state_shared: &mut EnemyStateShared,
        dt: u32,
        player_pos: &Vec2,
        game_manager: &mut WaveManager,
        sounds: &mut Vec<SoundCue>,
    ) -> (r: Option<EnemyCommand>)
        requires
            old(state_shared).wf(),
            pos_in_reach(old(state_shared).pos),
        ensures
            ({
                let o = *old(state_shared);
                let n = *final(state_shared);
                let sway = sway_at(old(game_manager).internal_timer);
                let p = Vec2 {
                    x: if player_pos.x > o.pos.x {
                        (o.pos.x + homing_dx(sway, dt)) as i64
                    } else {
                        (o.pos.x - homing_dx(sway, dt)) as i64
                    },
                    y: (o.pos.y + ENEMY_SPEED_HOMING_Y * dt) as i64,
                };
                let wrapped = o.animation_timer + dt > ENEMY_ANIM_CYCLE;
                &&& r is None
                &&& n.wf()
                &&& n.sprite == o.sprite
                &&& n.death_method == o.death_method
                &&& n.enemy_type == o.enemy_type
                &&& n.enemy_color == o.enemy_color
                &&& n.charge_timer_optional == o.charge_timer_optional
                &&& n.animation_timer == anim_next(o.animation_timer, dt)
                &&& final(sounds)@ == if wrapped {
                    old(sounds)@.push(cue(SoundIdentifier::Warning, 100))
                } else {
                    old(sounds)@
                }
                &&& n.pos == p
                &&& n.collision_rect == enemy_rect(o.sprite, p)
                &&& final(game_manager).state == old(game_manager).state
                &&& final(game_manager).internal_timer == old(game_manager).internal_timer
                &&& if p.y > GAME_SIZE_Y {
                    &&& n.health == 0
                    &&& final(game_manager).last_enemy_death_reason
                        == LastEnemyDeathReason::Environment
                } else {
                    &&& n.health == o.health
                    &&& final(game_manager).last_enemy_death_reason
                        == old(game_manager).last_enemy_death_reason
                }
            }),
    {
        let wrapped = advance_animation(state_shared, dt);
        if wrapped {
            sounds.push(sound_cue(SoundIdentifier::Warning, 100));
        }
        let sway = homing_sway(game_manager.internal_timer);
        proof {
            assert(0 <= ENEMY_SPEED_HOMING_X * sway <= 60000) by (nonlinear_arith)
                requires
                    sway <= 1000,
            ;
            assert(0 <= (ENEMY_SPEED_HOMING_X * sway) * dt <= 60000 * (dt as int))
                by (nonlinear_arith)
                requires
                    0 <= ENEMY_SPEED_HOMING_X * sway <= 60000,
                    dt >= 0,
            ;
        }
        let prod: u64 = (ENEMY_SPEED_HOMING_X as u64) * (sway as u64) * (dt as u64);
        let dx_abs = (prod / 1000) as i64;
        assert(dx_abs == homing_dx(sway, dt));
        // head for the player's side, swaying in speed
        let x = if player_pos.x > state_shared.pos.x {
            state_shared.pos.x + dx_abs
        } else {
            state_shared.pos.x - dx_abs
        };
        let pos = vec2(x, state_shared.pos.y + ENEMY_SPEED_HOMING_Y * dt as i64);
        state_shared.pos = pos;
        state_shared.collision_rect.x = pos.x - state_shared.sprite.w / 2;
        state_shared.collision_rect.y = pos.y;

        // an enemy that passed below the screen is lost
        if pos.y > GAME_SIZE_Y {
            state_shared.health = 0;
            game_manager.last_enemy_death_reason = LastEnemyDeathReason::Environment;
        }
        None
    }
}

/// Where a shooting enemy has jittered to, before any recoil.
pub open spec fn shooting_moved(o: EnemyStateShared, dt: u32, d: EnemyDraws) -> Vec2 {
    clamp_view(
        Vec2 {
            x: (o.pos.x + jitter_step(d.jitter_x, ENEMY_SHOOTING_SPEED, dt)) as i64,
            y: (o.pos.y + jitter_step(d.jitter_y, ENEMY_SHOOTING_SPEED, dt)) as i64,
        },
    )
}

/// The shared fields of an enemy after one update of `dt` with the draws
/// `d`, the player at `player_pos` and the match clock at `clock`.
pub open spec fn shared_after(
    e: Enemy,
    dt: u32,
    d: EnemyDraws,
    player_pos: Vec2,
    clock: u64,
) -> EnemyStateShared {
    let o = e.state_shared;
    match e.state {
        EnemyState::Spawning(_) => o,
        EnemyState::Normal(_) => {
            let p = clamp_view(
                Vec2 {
                    x: (o.pos.x + jitter_step(d.jitter_x, ENEMY_SPEED, dt)) as i64,
                    y: (o.pos.y + jitter_step(d.jitter_y, ENEMY_SPEED, dt)) as i64,
                },
            );
            EnemyStateShared {
                pos: p,
                collision_rect: enemy_rect(o.sprite, p),
                charge_timer_optional: charge_next(o.charge_timer_optional, dt),
                animation_timer: if charge_runs_out(o.charge_timer_optional, dt) {
                    o.animation_timer
                } else {
                    anim_next(o.animation_timer, dt)
                },
                ..o
            }
        },
        EnemyState::Shooting(s) => {
            let moved = shooting_moved(o, dt, d);
            let p = if shot_due(s.shoot_timer, dt) {
                Vec2 { x: moved.x, y: (moved.y - ENEMY_RECOIL) as i64 }
            } else {
                moved
            };
            EnemyStateShared {
                pos: p,
                collision_rect: enemy_rect(o.sprite, p),
                animation_timer: anim_next(o.animation_timer, dt),
                ..o
            }
        },
        EnemyState::Homing(_) => {
            let sway = sway_at(clock);
            let p = Vec2 {
                x: if player_pos.x > o.pos.x {
                    (o.pos.x + homing_dx(sway, dt)) as i64
                } else {
                    (o.pos.x - homing_dx(sway, dt)) as i64
                },
                y: (o.pos.y + ENEMY_SPEED_HOMING_Y * dt) as i64,
            };
            EnemyStateShared {
                pos: p,
                collision_rect: enemy_rect(o.sprite, p),
                animation_timer: anim_next(o.animation_timer, dt),
                health: if p.y > GAME_SIZE_Y {
                    0
                } else {
                    o.health
                },
                ..o
            }
        },
    }
}

/// The enemy after one update.
pub open spec fn enemy_after(
    e: Enemy,
    dt: u32,
    d: EnemyDraws,
    player_pos: Vec2,
    clock: u64,
) -> Enemy {
    Enemy { state_shared: shared_after(e, dt, d, player_pos, clock), state: next_state(e, dt, d) }
}

/// The bullets an enemy fires in one update.
pub open spec fn shots(e: Enemy, dt: u32, d: EnemyDraws) -> Seq<Bullet> {
    match e.state {
        EnemyState::Shooting(s) => if shot_due(s.shoot_timer, dt) {
            volley(shooting_moved(e.state_shared, dt, d), e.state_shared.sprite, d.two_bullets)
        } else {
            Seq::empty()
        },
        _ => Seq::empty(),
    }
}

/// A homing enemy that this update takes below the screen.
pub open spec fn lost_below(e: Enemy, dt: u32, d: EnemyDraws, player_pos: Vec2, clock: u64) -> bool {
    e.is_homing() && shared_after(e, dt, d, player_pos, clock).pos.y > GAME_SIZE_Y
}

impl Enemy {
    /// What one update of `dt` with the draws `d` does to an enemy and to the
    /// list of bullets.
    pub open spec fn update_spec(
        old_e: Enemy,
        new_e: Enemy,
        dt: u32,
        d: EnemyDraws,
        player_pos: Vec2,
        clock: u64,
        old_bullets: Seq<Bullet>,
        new_bullets: Seq<Bullet>,
    ) -> bool {
        &&& new_e == enemy_after(old_e, dt, d, player_pos, clock)
        &&& new_bullets == old_bullets + shots(old_e, dt, d)
        &&& new_e.wf()
        &&& drift_ok(old_e.state_shared.pos, new_e.state_shared.pos, dt)
        &&& fresh_enemy_shots(new_bullets, old_bullets.len() as int)
    }

    /// One update of `dt` with the random choices `draws` given.
    pub fn update_with(
        &mut self,
        dt: u32,
        draws: &EnemyDraws,
        bullets: &mut Vec<Bullet>,
        player_pos: &Vec2,
        game_manager: &mut WaveManager,
        sounds: &mut Vec<SoundCue>,
    )
        requires
            old(self).wf(),
            pos_in_reach(old(self).state_shared.pos),
            draws.wf(),
        ensures
            Enemy::update_spec(
                *old(self),
                *final(self),
                dt,
                *draws,
                *player_pos,
                old(game_manager).internal_timer,
                old(bullets)@,
                final(bullets)@,
            ),
            final(game_manager).state == old(game_manager).state,
            final(game_manager).internal_timer == old(game_manager).internal_timer,
            final(game_manager).last_enemy_death_reason == if old(self).is_homing()
                && final(self).state_shared.pos.y > GAME_SIZE_Y {
                LastEnemyDeathReason::Environment
            } else {
                old(game_manager).last_enemy_death_reason
            },
    {
        let ghost start = *self;
        let command_optional = match self.state {
            EnemyState::Spawning(s) => {
                let mut data = s;
                let c = Self::update_state_spawning(&self.state_shared, dt, &mut data);
                self.state = EnemyState::Spawning(data);
                c
            },
            EnemyState::Normal(s) => {
                let mut data = s;
                let c = Self::update_state_normal(&mut self.state_shared, dt, &mut data, draws);
                self.state = EnemyState::Normal(data);
                c
            },
            EnemyState::Shooting(s) => {
                let mut data = s;
                let c = Self::update_state_shooting(
                    &mut self.state_shared,
                    dt,
                    bullets,
                    &mut data,
                    draws,
                    sounds,
                );
                self.state = EnemyState::Shooting(data);
                c
            },
            EnemyState::Homing(_) => {
                proof {
                    let sway = sway_at(game_manager.internal_timer);
                    assert(sway <= 1000);
                    assert(homing_dx(sway, dt) <= ENEMY_SPEED_HOMING_X * dt) by (nonlinear_arith)
                        requires
                            sway <= 1000,
                            dt >= 0,
                    ;
                    assert(homing_dx(sway, dt) >= 0) by (nonlinear_arith)
                        requires
                            dt >= 0,
                    ;
                }
                Self::update_state_homing(
                    &mut self.state_shared,
                    dt,
                    player_pos,
                    game_manager,
                    sounds,
                )
            },
        };
        match command_optional {
            None => {},
            Some(command) => match command {
                EnemyCommand::ChangeState(new_state) => {
                    self.state = new_state;
                },
            },
        }
        proof {
            let b = bullets@;
            if start.state is Shooting {
                assert(b =~= old(bullets)@ + shots(start, dt, *draws));
            } else {
                assert(b =~= old(bullets)@ + shots(start, dt, *draws));
            }
            assert forall|i: int| old(bullets)@.len() <= i < b.len() implies (#[trigger] b[i]).wf()
                && b[i].hurt_type == BulletHurtType::Player && !b[i].is_kill by {
                if start.state is Shooting {
                    let s = start.state_shared;
                    let moved = clamp_view(
                        Vec2 {
                            x: (s.pos.x + jitter_step(draws.jitter_x, ENEMY_SHOOTING_SPEED, dt)) as i64,
                            y: (s.pos.y + jitter_step(draws.jitter_y, ENEMY_SHOOTING_SPEED, dt)) as i64,
                        },
                    );
                    let v = volley(moved, s.sprite, draws.two_bullets);
                    assert(b[i] == v[i - old(bullets)@.len()]);
                }
            }
        }
    }

    /// One update of `dt`: the enemy draws its random choices and acts on them.
    pub fn update(
        &mut self,
        dt: u32,
        bullets: &mut Vec<Bullet>,
        player_pos: &Vec2,
        game_manager: &mut WaveManager,
        sounds: &mut Vec<SoundCue>,
    )
        requires
            old(self).wf(),
            pos_in_reach(old(self).state_shared.pos),
        ensures
            exists|d: EnemyDraws|
                d.wf() && #[trigger] Enemy::update_spec(
                    *old(self),
                    *final(self),
                    dt,
                    d,
                    *player_pos,
                    old(game_manager).internal_timer,
                    old(bullets)@,
                    final(bullets)@,
                ),
            final(game_manager).state == old(game_manager).state,
            final(game_manager).internal_timer == old(game_manager).internal_timer,
            final(game_manager).last_enemy_death_reason == if old(self).is_homing()
                && final(self).state_shared.pos.y > GAME_SIZE_Y {
                LastEnemyDeathReason::Environment
            } else {
                old(game_manager).last_enemy_death_reason
            },
    {
        let draws = EnemyDraws::random();
        self.update_with(dt, &draws, bullets, player_pos, game_manager, sounds);
    }
}

/// The enemy after a run of updates of the lengths `dts`, as far as its state
/// goes, with the same draws each time.
pub open spec fn after_updates(e: Enemy, dts: Seq<u32>, d: EnemyDraws) -> Enemy
    decreases dts.len(),
{
    if dts.len() == 0 {
        e
    } else {
        after_updates(Enemy { state: next_state(e, dts[0], d), ..e }, dts.drop_first(), d)
    }
}

/// Number of updates of the run `dts` in which a shot of a burst was fired.
pub open spec fn shots_fired(e: Enemy, dts: Seq<u32>, d: EnemyDraws) -> int
    decreases dts.len(),
{
    if dts.len() == 0 {
        0
    } else {
        let fired: int = match e.state {
            EnemyState::Shooting(s) => if shot_due(s.shoot_timer, dts[0]) {
                1
            } else {
                0
            },
            _ => 0,
        };
        fired + shots_fired(Enemy { state: next_state(e, dts[0], d), ..e }, dts.drop_first(), d)
    }
}

/// An enemy enters the spawning state only at its creation: an update never
/// leads into it from another state. A spawning enemy turns normal in the
/// update where its accumulated time first reaches its type's spawn time,
/// and stays spawning before.
pub proof fn lemma_spawning_ends_once(e: Enemy, dt: u32, d: EnemyDraws)
    ensures
        next_state(e, dt, d) is Spawning ==> e.state is Spawning,
        e.state is Spawning ==> match e.state {
            EnemyState::Spawning(s) => if s.spawn_timer + dt >= spawn_end(e.state_shared.enemy_type) {
                next_state(e, dt, d) == EnemyState::Normal(EnemyStateNormal { shoot_timer: 0 })
            } else {
                next_state(e, dt, d) is Spawning
            },
            _ => true,
        },
{
}

/// A burst that starts with `n` shots left fires exactly `n` shots: while it
/// lasts, the shots fired and the shots left add up to `n`, and once the
/// enemy has left the shooting state it is back in the normal state with
/// `n` shots fired.
pub proof fn lemma_burst_fires_its_shots(e: Enemy, dts: Seq<u32>, d: EnemyDraws)
    requires
        e.state is Shooting,
        match e.state {
            EnemyState::Shooting(s) => s.shots_left >= 1,
            _ => false,
        },
        forall|k: int| 0 < k < dts.len() ==> (#[trigger] after_updates(e, dts.take(k), d)).state is Shooting,
    ensures
        match (e.state, after_updates(e, dts, d).state) {
            (EnemyState::Shooting(s0), EnemyState::Shooting(s1)) => shots_fired(e, dts, d)
                + s1.shots_left == s0.shots_left,
            (EnemyState::Shooting(s0), other) => other == EnemyState::Normal(
                EnemyStateNormal { shoot_timer: 0 },
            ) && shots_fired(e, dts, d) == s0.shots_left,
            _ => false,
        },
    decreases dts.len(),
{
    if dts.len() > 0 {
        let e1 = Enemy { state: next_state(e, dts[0], d), ..e };
        let rest = dts.drop_first();
        assert(after_updates(e, dts, d) == after_updates(e1, rest, d));
        if rest.len() == 0 {
            assert(after_updates(e1, rest, d) == e1);
            assert(shots_fired(e1, rest, d) == 0);
        } else {
            let one = dts.take(1);
            assert(one.drop_first() =~= Seq::<u32>::empty());
            assert(one[0] == dts[0]);
            assert(after_updates(e, one, d) == after_updates(e1, one.drop_first(), d));
            assert(after_updates(e1, one.drop_first(), d) == e1);
            assert forall|k: int| 0 < k < rest.len() implies (#[trigger] after_updates(
                e1,
                rest.take(k),
                d,
            )).state is Shooting by {
                assert(dts.take(k + 1).drop_first() =~= rest.take(k));
                assert(dts.take(k + 1)[0] == dts[0]);
                assert(after_updates(e, dts.take(k + 1), d) == after_updates(
                    e1,
                    dts.take(k + 1).drop_first(),
                    d,
                ));
                assert(after_updates(e, dts.take(k + 1), d).state is Shooting);
            }
            lemma_burst_fires_its_shots(e1, rest, d);
        }
    }
}

/// Total time of a run of updates.
pub open spec fn total_time(dts: Seq<u32>) -> int
    decreases dts.len(),
{
    if dts.len() == 0 {
        0
    } else {
        dts[0] + total_time(dts.drop_first())
    }
}

/// An enemy out of the spawning state never comes back to it, over any run
/// of updates.
pub proof fn lemma_never_spawning_again(e: Enemy, dts: Seq<u32>, d: EnemyDraws)
    requires
        !(e.state is Spawning),
    ensures
        !(after_updates(e, dts, d).state is Spawning),
    decreases dts.len(),
{
    if dts.len() > 0 {
        lemma_spawning_ends_once(e, dts[0], d);
        lemma_never_spawning_again(
            Enemy { state: next_state(e, dts[0], d), ..e },
            dts.drop_first(),
            d,
        );
    }
}

/// Over a run of updates that starts in the spawning state with the timer at
/// `t` and stays there until its last update, the enemy spawns for as long as
/// the accumulated time is below its type's spawn time, and is in the normal
/// state, its shoot timer at zero, once it reaches it.
pub proof fn lemma_spawning_run(e: Enemy, dts: Seq<u32>, d: EnemyDraws)
    requires
        e.state is Spawning,
        forall|k: int| 0 < k < dts.len() ==> (#[trigger] after_updates(e, dts.take(k), d)).state is Spawning,
    ensures
        match e.state {
            EnemyState::Spawning(s) => after_updates(e, dts, d).state == if s.spawn_timer
                + total_time(dts) >= spawn_end(e.state_shared.enemy_type) && dts.len() > 0 {
                EnemyState::Normal(EnemyStateNormal { shoot_timer: 0 })
            } else {
                EnemyState::Spawning(
                    EnemyStateSpawning { spawn_timer: (s.spawn_timer + total_time(dts)) as i64 },
                )
            },
            _ => false,
        },
    decreases dts.len(),
{
    if dts.len() > 0 {
        let e1 = Enemy { state: next_state(e, dts[0], d), ..e };
        let rest = dts.drop_first();
        assert(after_updates(e, dts, d) == after_updates(e1, rest, d));
        if rest.len() == 0 {
            assert(after_updates(e1, rest, d) == e1);
            assert(total_time(rest) == 0);
        } else {
            let one = dts.take(1);
            assert(one.drop_first() =~= Seq::<u32>::empty());
            assert(one[0] == dts[0]);
            assert(after_updates(e, one, d) == after_updates(e1, one.drop_first(), d));
            assert(after_updates(e1, one.drop_first(), d) == e1);
            assert forall|k: int| 0 < k < rest.len() implies (#[trigger] after_updates(
                e1,
                rest.take(k),
                d,
            )).state is Spawning by {
                assert(dts.take(k + 1).drop_first() =~= rest.take(k));
                assert(dts.take(k + 1)[0] == dts[0]);
                assert(after_updates(e, dts.take(k + 1), d) == after_updates(
                    e1,
                    dts.take(k + 1).drop_first(),
                    d,
                ));
                assert(after_updates(e, dts.take(k + 1), d).state is Spawning);
            }
            lemma_spawning_run(e1, rest, d);
        }
    }
}

} // verus!
