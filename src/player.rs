use vstd::prelude::*;

use crate::bullet::{in_world, new_bullet, Bullet, BulletHurtType};
use crate::constants::{
    GAME_CENTER_X, GAME_SIZE_X, GAME_SIZE_Y, PLAYER_RECT_H, PLAYER_RECT_W, PLAYER_SHOOT_TIME,
    PLAYER_SPEED, PLAYER_TIME_INVISIBLE,
};
use crate::geom::{vec2, Rect, Vec2};
use crate::resources::{cue, sound_cue, Resources, SoundCue, SoundIdentifier, Sprite};

verus! {

#[derive(Clone, Copy, Debug, PartialEq, Eq, Structural)]
pub enum PlayerState {
    Normal,
    /// Time left to be invisible, during which the player cannot be hurt.
    Invisible(i64),
}

/// Request to switch the player's state.
#[derive(Clone, Copy, Debug, PartialEq, Eq, Structural)]
pub enum PlayerCommand {
    ChangeState(PlayerState),
}

/// The keys held in this frame.
#[derive(Clone, Copy, Debug, PartialEq, Eq, Structural)]
pub struct PlayerInput {
    pub left: bool,
    pub right: bool,
    pub shoot: bool,
}

#[derive(Clone, Copy, Debug, PartialEq, Eq, Structural)]
pub struct Player {
    pub pos: Vec2,
    pub sprite: Sprite,
    pub shoot_timer: u64,
    pub collision_rect: Rect,
    pub state: PlayerState,
}

/// Where a shot leaves the ship, relative to its position.
pub const PLAYER_SHOT_OFFSET_X: i64 = 3000;
pub const PLAYER_SHOT_OFFSET_Y: i64 = -4000;

/// The player's box at `pos`.
pub open spec fn player_rect(pos: Vec2) -> Rect {
    Rect { x: pos.x, y: pos.y, w: PLAYER_RECT_W, h: PLAYER_RECT_H }
}

/// Horizontal position after the moves asked for over `dt`: left stops at
/// the screen's left edge, right where the ship's sprite touches the right one.
pub open spec fn moved_x(x: i64, sprite_w: i64, input: PlayerInput, dt: u32) -> i64 {
    let x1: int = if input.left {
        if x - PLAYER_SPEED * dt < 0 {
            0
        } else {
            x - PLAYER_SPEED * dt
        }
    } else {
        x as int
    };
    let x2: int = if input.right {
        if x1 + PLAYER_SPEED * dt > GAME_SIZE_X - sprite_w {
            GAME_SIZE_X - sprite_w
        } else {
            x1 + PLAYER_SPEED * dt
        }
    } else {
        x1
    };
    x2 as i64
}

pub open spec fn timer_after(t: u64, dt: u32) -> u64 {
    if t + dt > u64::MAX {
        u64::MAX
    } else {
        (t + dt) as u64
    }
}

/// Where the player stands at the start of a match: centered, on the ground.
pub open spec fn player_spawn_pos(resources: &Resources) -> Vec2 {
    Vec2 {
        x: GAME_CENTER_X,
        y: (GAME_SIZE_Y - resources.ground_bg.h - resources.player.h) as i64,
    }
}

/// The ship fires in this update: the key is held and the gun has cooled down.
pub open spec fn player_fires(o: Player, input: PlayerInput, dt: u32) -> bool {
    input.shoot && timer_after(o.shoot_timer, dt) >= PLAYER_SHOOT_TIME
}

/// What one update of `dt` with the keys `input` does to the ship `o` and to
/// the bullets `ob`: it moves as the keys ask; it fires when asked once its
/// gun has cooled down, in either state; an invisible ship counts its time
/// down.
pub open spec fn player_update_spec(
    o: Player,
    n: Player,
    input: PlayerInput,
    dt: u32,
    ob: Seq<Bullet>,
    nb: Seq<Bullet>,
) -> bool {
    let x = moved_x(o.pos.x, o.sprite.w, input, dt);
    let t = timer_after(o.shoot_timer, dt);
    &&& n.wf()
    &&& n.pos == (Vec2 { x, y: o.pos.y })
    &&& n.collision_rect == player_rect(n.pos)
    &&& n.sprite == o.sprite
    &&& n.state == match o.state {
        PlayerState::Normal => PlayerState::Normal,
        PlayerState::Invisible(left) => if left - dt <= 0 {
            PlayerState::Normal
        } else {
            PlayerState::Invisible((left - dt) as i64)
        },
    }
    &&& if player_fires(o, input, dt) {
        &&& nb == ob.push(
            new_bullet(
                Vec2 {
                    x: (x + PLAYER_SHOT_OFFSET_X) as i64,
                    y: (o.pos.y + PLAYER_SHOT_OFFSET_Y) as i64,
                },
                BulletHurtType::Enemy,
            ),
        )
        &&& n.shoot_timer == 0
    } else {
        &&& nb == ob
        &&& n.shoot_timer == t
    }
}

impl Player {
    pub open spec fn wf(&self) -> bool {
        &&& self.sprite.wf()
        &&& in_world(self.pos)
        &&& self.collision_rect.w == PLAYER_RECT_W
        &&& self.collision_rect.h == PLAYER_RECT_H
        &&& match self.state {
            PlayerState::Invisible(t) => 0 < t <= PLAYER_TIME_INVISIBLE,
            PlayerState::Normal => true,
        }
    }

    pub fn new(pos: Vec2, sprite: Sprite) -> (r: Player)
        requires
            sprite.wf(),
            in_world(pos),
        ensures
            r.wf(),
            r.pos == pos,
            r.sprite == sprite,
            r.shoot_timer == 0,
            r.collision_rect == player_rect(pos),
            r.state == PlayerState::Normal,
    {
        Player {
            pos,
            sprite,
            shoot_timer: 0,
            collision_rect: Rect::new(pos.x, pos.y, PLAYER_RECT_W, PLAYER_RECT_H),
            state: PlayerState::Normal,
        }
    }

    /// Back to the start of a match; the box follows at the next update.
    pub fn reset(&mut self, resources: &Resources)
        requires
            old(self).wf(),
            resources.wf(),
        ensures
            final(self).wf(),
            final(self).pos == player_spawn_pos(resources),
            final(self).shoot_timer == 0,
            final(self).state == PlayerState::Normal,
            final(self).sprite == old(self).sprite,
            final(self).collision_rect == old(self).collision_rect,
    {
        let player_spawn_y = GAME_SIZE_Y - resources.ground_bg.h - resources.player.h;
        self.pos = vec2(GAME_CENTER_X, player_spawn_y);
        self.shoot_timer = 0;
        self.state = PlayerState::Normal;
    }

    /// One update of the ship, as `player_update_spec` says.
    pub fn update(
        &mut self,
        dt: u32,
        input: &PlayerInput,
        bullets: &mut Vec<Bullet>,
        sounds: &mut Vec<SoundCue>,
    )
        requires
            old(self).wf(),
        ensures
            player_update_spec(*old(self), *final(self), *input, dt, old(bullets)@, final(bullets)@),
            final(sounds)@ == if player_fires(*old(self), *input, dt) {
                old(sounds)@.push(cue(SoundIdentifier::PlayerShoot, 100))
            } else {
                old(sounds)@
            },
    {
        self.shoot_timer = self.shoot_timer.saturating_add(dt as u64);
        let step = PLAYER_SPEED * dt as i64;
        if input.left {
            self.pos.x = self.pos.x - step;
            if self.pos.x < 0 {
                self.pos.x = 0;
            }
        }
        if input.right {
            self.pos.x = self.pos.x + step;
            if self.pos.x > GAME_SIZE_X - self.sprite.w {
                self.pos.x = GAME_SIZE_X - self.sprite.w;
            }
        }
        // the gun works in both states; only the damage is ignored while invisible
        if input.shoot && self.shoot_timer >= PLAYER_SHOOT_TIME as u64 {
            let spawn_pos = vec2(self.pos.x + PLAYER_SHOT_OFFSET_X, self.pos.y + PLAYER_SHOT_OFFSET_Y);
            bullets.push(Bullet::new(spawn_pos, BulletHurtType::Enemy));
            sounds.push(sound_cue(SoundIdentifier::PlayerShoot, 100));
            self.shoot_timer = 0;
        }
        let player_command_optional = match self.state {
            PlayerState::Normal => None,
            PlayerState::Invisible(time_left) => {
                let left = time_left - dt as i64;
                self.state = PlayerState::Invisible(left);
                if left <= 0 {
                    Some(PlayerCommand::ChangeState(PlayerState::Normal))
                } else {
                    None
                }
            },
        };
        self.process_command_optional(player_command_optional);
        self.collision_rect.x = self.pos.x;
        self.collision_rect.y = self.pos.y;
    }

    /// Applies a state change, if one is given.
    pub fn process_command_optional(&mut self, command_optional: Option<PlayerCommand>)
        ensures
            final(self).state == match command_optional {
                Some(PlayerCommand::ChangeState(s)) => s,
                None => old(self).state,
            },
            final(self).pos == old(self).pos,
            final(self).sprite == old(self).sprite,
            final(self).shoot_timer == old(self).shoot_timer,
            final(self).collision_rect == old(self).collision_rect,
    {
        match command_optional {
            Some(player_command) => match player_command {
                PlayerCommand::ChangeState(state) => {
                    self.state = state;
                },
            },
            None => {},
        }
    }

    pub open spec fn is_normal(&self) -> bool {
        self.state == PlayerState::Normal
    }
}

} // verus!
