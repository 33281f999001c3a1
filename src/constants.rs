use vstd::prelude::*;

verus! {

/// Milli-units per unit of the game field.
pub const UNIT: i64 = 1000;

pub const GAME_SIZE_X: i64 = 240000;
pub const GAME_SIZE_Y: i64 = 130000;
pub const GAME_CENTER_X: i64 = 120000;
pub const GAME_CENTER_Y: i64 = 65000;

/// Entities whose position leaves the square of this half-width around the
/// origin are discarded at the end of a frame.
pub const WORLD_LIMIT: i64 = 1000000000000;

/// Largest sprite side, in milli-units.
pub const SPRITE_LIMIT: i64 = 1000000;

pub const SCORE_NORMAL: i32 = 100;
pub const SCORE_MINI: i32 = 20;
pub const SCORE_KILL_ALL: i32 = 1000;
pub const SCORE_SURVIVED_ALL: i32 = 750;

/// Speeds are in milli-units per millisecond (units per second).
pub const PLAYER_SPEED: i64 = 90;
/// Times are in milliseconds.
pub const PLAYER_SHOOT_TIME: i64 = 800;
pub const PLAYER_BULLET_SPEED: i64 = 80;
pub const PLAYER_LIVES_START: i32 = 3;
pub const PLAYER_LIVES_MAX: i32 = 7;
pub const PLAYER_TIME_INVISIBLE: i64 = 2000;
pub const PLAYER_RECT_W: i64 = 7000;
pub const PLAYER_RECT_H: i64 = 6000;

pub const ENEMY_SPEED: i64 = 50;
pub const ENEMY_SPEED_HOMING_X: i64 = 60;
pub const ENEMY_SPEED_HOMING_Y: i64 = 30;
pub const ENEMY_BULLET_SPEED: i64 = 80;
pub const ENEMY_SHOOT_TIME: i64 = 2000;
/// Time between the shots of one burst.
pub const ENEMY_SHOOT_BURST_TIME: i64 = 200;
/// Bursts have between one and `ENEMY_MAX_BURST_COUNT - 1` shots.
pub const ENEMY_MAX_BURST_COUNT: i32 = 5;
pub const ENEMY_ANIM_TIME_SPAWN: i64 = 700;
pub const ENEMY_MINI_ANIM_TIME_SPAWN: i64 = 300;
pub const ENEMY_ANIM_TIME_FLAP: i64 = 120;
/// Length of the four-frame wing cycle.
pub const ENEMY_ANIM_CYCLE: i64 = 480;
/// Upward nudge of an enemy at each shot.
pub const ENEMY_RECOIL: i64 = 2000;
/// A mini starts homing after a delay drawn from `[MIN, MAX)`.
pub const ENEMY_MINI_HOMING_TIME_MIN: u32 = 4000;
pub const ENEMY_MINI_HOMING_TIME_MAX: u32 = 10000;
/// Children of a dead enemy are fanned out over this width.
pub const ENEMY_CHILD_SPREAD: i64 = 20000;

pub const ENEMY_SPAWN_STARTING_COUNT: i32 = 2;
pub const ENEMY_SPAWN_MAX_COUNT: i32 = 9;
pub const TIME_UNTIL_MAX_DIFFICULTY: u64 = 70000;
/// A normal enemy is spawned every `ENEMY_SPAWN_TIME` during a wave's spawning.
pub const ENEMY_SPAWN_TIME: i64 = 500;

pub const BULLET_ANIM_TIME_SPAWN: u64 = 300;
pub const BULLET_W: i64 = 2000;
pub const BULLET_H: i64 = 6000;

} // verus!
