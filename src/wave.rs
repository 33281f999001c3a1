use vstd::prelude::*;

use crate::constants::{
    ENEMY_MINI_HOMING_TIME_MAX, ENEMY_MINI_HOMING_TIME_MIN, ENEMY_SPAWN_MAX_COUNT,
    ENEMY_SPAWN_STARTING_COUNT, ENEMY_SPAWN_TIME, GAME_CENTER_X, GAME_CENTER_Y,
    TIME_UNTIL_MAX_DIFFICULTY,
};
use crate::enemy::{
    Enemy, EnemyColor, EnemyDeathMethod, EnemyState, EnemyStateSpawning, EnemyType,
};
use crate::geom::{vec2, Rect, Vec2};
use crate::resources::{cue, sound_cue, sprite_list_ok, Resources, SoundCue, SoundIdentifier};
use crate::rng::gen_range;

verus! {

/// Payload of the spawning phase of a wave.
#[derive(Clone, Copy, Debug, PartialEq, Eq, Structural)]
pub struct WaveManagerStateSpawning {
    pub enemies_left: i32,
    pub spawn_timer: i64,
}

#[derive(Clone, Copy, Debug, PartialEq, Eq, Structural)]
pub enum WaveManagerState {
    Spawning(WaveManagerStateSpawning),
    Battle,
}

/// Internal request of a phase to switch the manager's state.
#[derive(Clone, Copy, Debug, PartialEq, Eq, Structural)]
pub enum WaveManagerCommand {
    ChangeState(WaveManagerState),
}

/// What the manager tells the game.
#[derive(Clone, Copy, Debug, PartialEq, Eq, Structural)]
pub enum WaveManagerMessage {
    LevelCleared,
}

/// How the last enemy died: shot by the player, or lost below the screen.
#[derive(Clone, Copy, Debug, PartialEq, Eq, Structural)]
pub enum LastEnemyDeathReason {
    Environment,
    Player,
}

pub struct WaveManager {
    pub state: WaveManagerState,
    pub last_enemy_death_reason: LastEnemyDeathReason,
    /// Time since the match started, in milliseconds.
    pub internal_timer: u64,
}


/// How a new enemy is made: a normal one near the top middle of the screen,
/// or a mini at a given position.
#[derive(Clone, Copy, Debug, PartialEq, Eq, Structural)]
pub enum SpawnBlueprint {
    Normal,
    Mini(Vec2),
}

/// Half-width of the area where normal enemies appear, around the center.
pub const SPAWN_OFFSET_X: u32 = 100000;
/// Normal enemies appear from this far above the center ...
pub const SPAWN_OFFSET_UP: u32 = 60000;
/// ... to this far below it.
pub const SPAWN_OFFSET_DOWN: u32 = 10000;

/// Size of the next wave after `time` milliseconds of play: it grows linearly
/// from the starting count to the maximum over the ramp, then stays there.
pub open spec fn spawn_count(time: u64) -> int {
    let t: int = if time < TIME_UNTIL_MAX_DIFFICULTY {
        time as int
    } else {
        TIME_UNTIL_MAX_DIFFICULTY as int
    };
    ENEMY_SPAWN_STARTING_COUNT + ((ENEMY_SPAWN_MAX_COUNT - ENEMY_SPAWN_STARTING_COUNT) * t)
        / (TIME_UNTIL_MAX_DIFFICULTY as int)
}

/// Number of spawn intervals that a timer standing at `t` has run past.
pub open spec fn intervals_due(t: int) -> int {
    if t <= 0 {
        0
    } else {
        (t - 1) / (ENEMY_SPAWN_TIME as int)
    }
}

pub open spec fn min(a: int, b: int) -> int {
    if a < b {
        a
    } else {
        b
    }
}

/// `e` is an enemy as `spawn_enemy` makes it from `bp`.
pub open spec fn spawned_from(e: Enemy, bp: SpawnBlueprint, res: &Resources) -> bool {
    let s = e.state_shared;
    let color = s.enemy_color;
    &&& e.wf()
    &&& e.state == EnemyState::Spawning(EnemyStateSpawning { spawn_timer: 0 })
    &&& s.health == 1
    &&& s.animation_timer == 0
    &&& s.collision_rect == (Rect { x: 0, y: 0, w: s.sprite.w, h: s.sprite.h })
    &&& match bp {
        SpawnBlueprint::Normal => {
            &&& s.enemy_type == EnemyType::Normal
            &&& res.sprites(EnemyType::Normal, color).contains(s.sprite)
            &&& s.charge_timer_optional is None
            &&& GAME_CENTER_X - SPAWN_OFFSET_X <= s.pos.x < GAME_CENTER_X + SPAWN_OFFSET_X
            &&& GAME_CENTER_Y - SPAWN_OFFSET_UP <= s.pos.y < GAME_CENTER_Y + SPAWN_OFFSET_DOWN
            &&& (s.death_method == EnemyDeathMethod::Vanish || s.death_method
                == EnemyDeathMethod::SpawnChildren(1) || s.death_method
                == EnemyDeathMethod::SpawnChildren(2))
        },
        SpawnBlueprint::Mini(p) => {
            &&& s.enemy_type == EnemyType::Mini
            &&& res.sprites(EnemyType::Mini, color).contains(s.sprite)
            &&& s.pos == p
            &&& s.death_method == EnemyDeathMethod::Vanish
            &&& exists|c: i64|
                s.charge_timer_optional == Some(c) && ENEMY_MINI_HOMING_TIME_MIN <= c
                    < ENEMY_MINI_HOMING_TIME_MAX
        },
    }
}

/// Makes an enemy from a blueprint, with its random features drawn, and adds
/// it to `enemies`. A normal enemy leaves minis behind half of the time.
pub fn spawn_enemy(
    enemies: &mut Vec<Enemy>,
    resources: &Resources,
    spawn_blueprint: SpawnBlueprint,
    enemy_color: EnemyColor,
)
    requires
        resources.wf(),
    ensures
        final(enemies)@.len() == old(enemies)@.len() + 1,
        final(enemies)@.drop_last() == old(enemies)@,
        spawned_from(final(enemies)@.last(), spawn_blueprint, resources),
        final(enemies)@.last().state_shared.enemy_color == enemy_color,
{
    let health: i32 = 1;
    assert(sprite_list_ok(resources.sprites(EnemyType::Normal, enemy_color)));
    assert(sprite_list_ok(resources.sprites(EnemyType::Mini, enemy_color)));
    let enemy = match spawn_blueprint {
        SpawnBlueprint::Normal => {
            let dx = gen_range(0, 2 * SPAWN_OFFSET_X) as i64 - SPAWN_OFFSET_X as i64;
            let dy = gen_range(0, SPAWN_OFFSET_UP + SPAWN_OFFSET_DOWN) as i64
                - SPAWN_OFFSET_UP as i64;
            let spawn_pos = vec2(GAME_CENTER_X + dx, GAME_CENTER_Y + dy);
            let death_method = if gen_range(0, 2) > 0 {
                let spawn_amount = gen_range(1, 3) as i32;
                EnemyDeathMethod::SpawnChildren(spawn_amount)
            } else {
                EnemyDeathMethod::Vanish
            };
            let sprite = resources.rand_enemy_normal(enemy_color);
            Enemy::new(
                spawn_pos,
                sprite,
                health,
                death_method,
                EnemyType::Normal,
                enemy_color,
                0,
            )
        },
        SpawnBlueprint::Mini(pos) => {
            let sprite = resources.rand_enemy_mini(enemy_color);
            let delay = gen_range(ENEMY_MINI_HOMING_TIME_MIN, ENEMY_MINI_HOMING_TIME_MAX);
            Enemy::new(
                pos,
                sprite,
                health,
                EnemyDeathMethod::Vanish,
                EnemyType::Mini,
                enemy_color,
                delay,
            )
        },
    };
    enemies.push(enemy);
    assert(enemies@.drop_last() =~= old(enemies)@);
}

impl WaveManagerState {
    /// Enemies still to spawn never go negative and a spawning timer never
    /// holds a whole interval.
    pub open spec fn wf(&self) -> bool {
        match *self {
            WaveManagerState::Spawning(s) => s.enemies_left >= 0 && 0 <= s.spawn_timer
                <= ENEMY_SPAWN_TIME,
            WaveManagerState::Battle => true,
        }
    }
}

impl WaveManager {
    pub open spec fn wf(&self) -> bool {
        self.state.wf()
    }

    pub open spec fn initial_state() -> WaveManagerState {
        WaveManagerState::Spawning(
            WaveManagerStateSpawning { enemies_left: ENEMY_SPAWN_STARTING_COUNT, spawn_timer: 0 },
        )
    }

    pub fn new() -> (r: WaveManager)
        ensures
            r.wf(),
            r.state == WaveManager::initial_state(),
            r.last_enemy_death_reason == LastEnemyDeathReason::Environment,
            r.internal_timer == 0,
    {
        let enemies_left = ENEMY_SPAWN_STARTING_COUNT;
        WaveManager {
            state: WaveManagerState::Spawning(
                WaveManagerStateSpawning { spawn_timer: 0, enemies_left },
            ),
            last_enemy_death_reason: LastEnemyDeathReason::Environment,
            internal_timer: 0,
        }
    }

    /// Back to the first wave of a match.
    pub fn reset(&mut self)
        ensures
            final(self).wf(),
            final(self).state == WaveManager::initial_state(),
            final(self).last_enemy_death_reason == LastEnemyDeathReason::Environment,
            final(self).internal_timer == 0,
    {
        let enemies_left = ENEMY_SPAWN_STARTING_COUNT;
        self.state = WaveManagerState::Spawning(
            WaveManagerStateSpawning { spawn_timer: 0, enemies_left },
        );
        self.last_enemy_death_reason = LastEnemyDeathReason::Environment;
        self.internal_timer = 0;
    }

    /// Interpolates the wave size between the starting and the maximum count.
    pub fn get_enemy_spawn_count(time: u64) -> (r: i32)
        ensures
            r == spawn_count(time),
    {
        let t = if time < TIME_UNTIL_MAX_DIFFICULTY {
            time
        } else {
            TIME_UNTIL_MAX_DIFFICULTY
        };
        let span = (ENEMY_SPAWN_MAX_COUNT - ENEMY_SPAWN_STARTING_COUNT) as u64;
        let step = (span * t / TIME_UNTIL_MAX_DIFFICULTY) as i32;
        ENEMY_SPAWN_STARTING_COUNT + step
    }

    fn update_state_battle(enemies: &Vec<Enemy>, internal_time: u64) -> (r: Option<
        WaveManagerCommand,
    >)
        ensures
            r == if enemies@.len() == 0 {
                Some(
                    WaveManagerCommand::ChangeState(
                        WaveManagerState::Spawning(
                            WaveManagerStateSpawning {
                                enemies_left: spawn_count(internal_time) as i32,
                                spawn_timer: 0,
                            },
                        ),
                    ),
                )
            } else {
                None
            },
    {
        if enemies.len() == 0 {
            let enemies_left = Self::get_enemy_spawn_count(internal_time);
            return Some(
                WaveManagerCommand::ChangeState(
                    WaveManagerState::Spawning(
                        WaveManagerStateSpawning { enemies_left, spawn_timer: 0 },
                    ),
                ),
            );
        }
        None
    }

    fn update_state_spawning(
        game_state_spawning: &mut WaveManagerStateSpawning,
        dt: u32,
        enemies: &mut Vec<Enemy>,
        resources: &Resources,
        sounds: &mut Vec<SoundCue>,
    ) -> (r: Option<WaveManagerCommand>)
        requires
            WaveManagerState::Spawning(*old(game_state_spawning)).wf(),
            resources.wf(),
        ensures
            ({
                let o = *old(game_state_spawning);
                let n = *final(game_state_spawning);
                let k = min(o.enemies_left as int, intervals_due(o.spawn_timer + dt));
                &&& n.enemies_left == o.enemies_left - k
                &&& n.spawn_timer == o.spawn_timer + dt - ENEMY_SPAWN_TIME * k
                &&& final(enemies)@.len() == old(enemies)@.len() + k
                &&& final(enemies)@.subrange(0, old(enemies)@.len() as int) == old(enemies)@
                &&& forall|i: int|
                    old(enemies)@.len() <= i < final(enemies)@.len() ==> spawned_from(
                        #[trigger] final(enemies)@[i],
                        SpawnBlueprint::Normal,
                        resources,
                    )
                &&& final(sounds)@ == old(sounds)@ + Seq::new(
                    k as nat,
                    |i: int| cue(SoundIdentifier::Spawn, 40),
                )
                &&& r == if n.enemies_left <= 0 {
                    Some(WaveManagerCommand::ChangeState(WaveManagerState::Battle))
                } else {
                    None
                }
            }),
    {
        let ghost o = *game_state_spawning;
        let ghost e0 = enemies@;
        let ghost s0 = sounds@;
        game_state_spawning.spawn_timer = game_state_spawning.spawn_timer + dt as i64;
        let ghost t0 = game_state_spawning.spawn_timer as int;
        let mut k: i32 = 0;
        assert(sounds@ =~= s0 + Seq::new(0, |i: int| cue(SoundIdentifier::Spawn, 40)));
        // one enemy for each interval that has passed, as long as some are left
        while game_state_spawning.spawn_timer > ENEMY_SPAWN_TIME
            && game_state_spawning.enemies_left > 0
            invariant
                resources.wf(),
                0 <= k <= o.enemies_left,
                k <= intervals_due(t0),
                game_state_spawning.enemies_left == o.enemies_left - k,
                game_state_spawning.spawn_timer == t0 - ENEMY_SPAWN_TIME * k,
                enemies@.len() == e0.len() + k,
                enemies@.subrange(0, e0.len() as int) == e0,
                forall|i: int|
                    e0.len() <= i < enemies@.len() ==> spawned_from(
                        #[trigger] enemies@[i],
                        SpawnBlueprint::Normal,
                        resources,
                    ),
                sounds@ == s0 + Seq::new(k as nat, |i: int| cue(SoundIdentifier::Spawn, 40)),
            decreases game_state_spawning.enemies_left,
        {
            proof {
                vstd::arithmetic::div_mod::lemma_fundamental_div_mod(t0 - 1, ENEMY_SPAWN_TIME as int);
                vstd::arithmetic::div_mod::lemma_mod_pos_bound(t0 - 1, ENEMY_SPAWN_TIME as int);
            }
            game_state_spawning.enemies_left = game_state_spawning.enemies_left - 1;
            game_state_spawning.spawn_timer = game_state_spawning.spawn_timer - ENEMY_SPAWN_TIME;
            let ghost before = enemies@;
            let color = EnemyColor::random();
            spawn_enemy(enemies, resources, SpawnBlueprint::Normal, color);
            sounds.push(sound_cue(SoundIdentifier::Spawn, 40));
            k = k + 1;
            proof {
                assert(sounds@ =~= s0 + Seq::new(k as nat, |i: int| cue(SoundIdentifier::Spawn, 40)));
                assert(enemies@.subrange(0, e0.len() as int) =~= before.subrange(0, e0.len() as int));
                assert forall|i: int| e0.len() <= i < enemies@.len() implies spawned_from(
                    #[trigger] enemies@[i],
                    SpawnBlueprint::Normal,
                    resources,
                ) by {
                    if i < before.len() {
                        assert(enemies@[i] == before[i]);
                    } else {
                        assert(enemies@[i] == enemies@.last());
                    }
                }
            }
        }
        proof {
            if t0 >= 1 {
                vstd::arithmetic::div_mod::lemma_fundamental_div_mod(t0 - 1, ENEMY_SPAWN_TIME as int);
                vstd::arithmetic::div_mod::lemma_mod_pos_bound(t0 - 1, ENEMY_SPAWN_TIME as int);
            }
        }
        if game_state_spawning.enemies_left <= 0 {
            return Some(WaveManagerCommand::ChangeState(WaveManagerState::Battle));
        }
        None
    }
}

/// The match clock after `dt` more milliseconds; it stops at its largest value.
pub open spec fn clock_after(t: u64, dt: u32) -> u64 {
    if t + dt > u64::MAX {
        u64::MAX
    } else {
        (t + dt) as u64
    }
}

/// Number of enemies one update of `dt` spawns from this state.
pub open spec fn wave_spawns(state: WaveManagerState, dt: u32) -> int {
    match state {
        WaveManagerState::Battle => 0,
        WaveManagerState::Spawning(s) => min(
            s.enemies_left as int,
            intervals_due(s.spawn_timer + dt),
        ),
    }
}

/// What one update of `dt` does to the manager `o` and the enemies `oe`.
/// While spawning, one normal enemy appears for each spawn interval that has
/// passed, as long as some are left to spawn; the battle starts when none
/// are left. In battle, once no enemy is alive the next wave starts spawning
/// and the level is cleared.
pub open spec fn wave_update_spec(
    o: WaveManager,
    n: WaveManager,
    dt: u32,
    oe: Seq<Enemy>,
    ne: Seq<Enemy>,
    r: Option<WaveManagerMessage>,
    resources: &Resources,
) -> bool {
    &&& n.wf()
    &&& n.internal_timer == clock_after(o.internal_timer, dt)
    &&& n.last_enemy_death_reason == o.last_enemy_death_reason
    &&& match o.state {
        WaveManagerState::Battle => {
            &&& ne == oe
            &&& if oe.len() == 0 {
                &&& n.state == WaveManagerState::Spawning(
                    WaveManagerStateSpawning {
                        enemies_left: spawn_count(n.internal_timer) as i32,
                        spawn_timer: 0,
                    },
                )
                &&& r == Some(WaveManagerMessage::LevelCleared)
            } else {
                &&& n.state == WaveManagerState::Battle
                &&& r is None
            }
        },
        WaveManagerState::Spawning(s) => {
            let k = wave_spawns(o.state, dt);
            let left = s.enemies_left - k;
            &&& n.state == if left <= 0 {
                WaveManagerState::Battle
            } else {
                WaveManagerState::Spawning(
                    WaveManagerStateSpawning {
                        enemies_left: left as i32,
                        spawn_timer: (s.spawn_timer + dt - ENEMY_SPAWN_TIME * k) as i64,
                    },
                )
            }
            &&& r is None
            &&& ne.len() == oe.len() + k
            &&& ne.subrange(0, oe.len() as int) == oe
            &&& forall|i: int|
                oe.len() <= i < ne.len() ==> spawned_from(
                    #[trigger] ne[i],
                    SpawnBlueprint::Normal,
                    resources,
                )
        },
    }
}

impl WaveManager {
    /// One update of the scheduler, as `wave_update_spec` says.
    pub fn update(
        &mut self,
        dt: u32,
        enemies: &mut Vec<Enemy>,
        resources: &Resources,
        sounds: &mut Vec<SoundCue>,
    ) -> (r: Option<WaveManagerMessage>)
        requires
            old(self).wf(),
            resources.wf(),
        ensures
            wave_update_spec(
                *old(self),
                *final(self),
                dt,
                old(enemies)@,
                final(enemies)@,
                r,
                resources,
            ),
            final(sounds)@ == old(sounds)@ + Seq::new(
                wave_spawns(old(self).state, dt) as nat,
                |i: int| cue(SoundIdentifier::Spawn, 40),
            ),
    {
        self.internal_timer = self.internal_timer.saturating_add(dt as u64);
        let state_command_optional = match self.state {
            WaveManagerState::Spawning(game_state_spawning) => {
                let mut data = game_state_spawning;
                let c = Self::update_state_spawning(&mut data, dt, enemies, resources, sounds);
                self.state = WaveManagerState::Spawning(data);
                c
            },
            WaveManagerState::Battle => Self::update_state_battle(enemies, self.internal_timer),
        };
        match state_command_optional {
            Some(state_command) => match state_command {
                WaveManagerCommand::ChangeState(target_state) => {
                    self.state = target_state;
                    // a new wave starts spawning only once the last one is cleared
                    let cleared_screen = match self.state {
                        WaveManagerState::Spawning(_) => true,
                        WaveManagerState::Battle => false,
                    };
                    if cleared_screen {
                        return Some(WaveManagerMessage::LevelCleared);
                    }
                },
            },
            None => {},
        }
        None
    }
}

/// The size of the next wave never shrinks as the match goes on, never
/// exceeds the maximum, and is the maximum once the ramp is over.
pub proof fn lemma_spawn_count_monotonic(t1: u64, t2: u64)
    requires
        t1 <= t2,
    ensures
        ENEMY_SPAWN_STARTING_COUNT <= spawn_count(t1) <= spawn_count(t2) <= ENEMY_SPAWN_MAX_COUNT,
        t2 >= TIME_UNTIL_MAX_DIFFICULTY ==> spawn_count(t2) == ENEMY_SPAWN_MAX_COUNT,
{
    let c1: int = if t1 < TIME_UNTIL_MAX_DIFFICULTY {
        t1 as int
    } else {
        TIME_UNTIL_MAX_DIFFICULTY as int
    };
    let c2: int = if t2 < TIME_UNTIL_MAX_DIFFICULTY {
        t2 as int
    } else {
        TIME_UNTIL_MAX_DIFFICULTY as int
    };
    let d = TIME_UNTIL_MAX_DIFFICULTY as int;
    vstd::arithmetic::div_mod::lemma_div_is_ordered(0, 7 * c1, d);
    vstd::arithmetic::div_mod::lemma_div_is_ordered(7 * c1, 7 * c2, d);
    vstd::arithmetic::div_mod::lemma_div_is_ordered(7 * c2, 7 * d, d);
    vstd::arithmetic::div_mod::lemma_div_by_multiple(7, d);
}

} // verus!
