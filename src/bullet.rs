use vstd::prelude::*;

use crate::constants::{
    BULLET_ANIM_TIME_SPAWN, BULLET_H, BULLET_W, ENEMY_BULLET_SPEED, PLAYER_BULLET_SPEED,
    WORLD_LIMIT,
};
use crate::geom::{vec2, Rect, Vec2};

verus! {

/// Which side a bullet hurts.
#[derive(Clone, Copy, Debug, PartialEq, Eq, Structural)]
pub enum BulletHurtType {
    Player,
    Enemy,
}

#[derive(Clone, Copy, Debug, PartialEq, Eq, Structural)]
pub struct Bullet {
    pub pos: Vec2,
    pub vel: Vec2,
    pub hurt_type: BulletHurtType,
    pub anim_timer: u64,
    pub collision_rect: Rect,
    pub is_kill: bool,
}

/// Bullets that hurt enemies fly up, those that hurt the player fly down.
pub open spec fn bullet_velocity(hurt_type: BulletHurtType) -> Vec2 {
    match hurt_type {
        BulletHurtType::Enemy => Vec2 { x: 0, y: (-PLAYER_BULLET_SPEED) as i64 },
        BulletHurtType::Player => Vec2 { x: 0, y: ENEMY_BULLET_SPEED },
    }
}

/// The collision box of a bullet at `pos`.
pub open spec fn bullet_rect(pos: Vec2) -> Rect {
    Rect { x: pos.x, y: pos.y, w: BULLET_W, h: BULLET_H }
}

/// A freshly fired bullet.
pub open spec fn new_bullet(pos: Vec2, hurt_type: BulletHurtType) -> Bullet {
    Bullet {
        pos,
        vel: bullet_velocity(hurt_type),
        hurt_type,
        anim_timer: 0,
        collision_rect: bullet_rect(pos),
        is_kill: false,
    }
}

/// A coordinate within twice the world limit: every entity that is updated
/// stands there, so that one step of movement cannot overflow.
pub open spec fn in_reach(v: int) -> bool {
    -2 * WORLD_LIMIT <= v <= 2 * WORLD_LIMIT
}

/// A position inside the world: what is kept from one frame to the next.
pub open spec fn in_world(p: Vec2) -> bool {
    -WORLD_LIMIT <= p.x <= WORLD_LIMIT && -WORLD_LIMIT <= p.y <= WORLD_LIMIT
}

pub open spec fn pos_in_reach(p: Vec2) -> bool {
    in_reach(p.x as int) && in_reach(p.y as int)
}

impl Bullet {
    /// The bullet's velocity matches its side and its box sits at its position.
    pub open spec fn wf(&self) -> bool {
        &&& self.vel == bullet_velocity(self.hurt_type)
        &&& self.collision_rect == bullet_rect(self.pos)
        &&& pos_in_reach(self.pos)
    }

    pub fn new(pos: Vec2, hurt_type: BulletHurtType) -> (r: Bullet)
        requires
            pos_in_reach(pos),
        ensures
            r.wf(),
            r == new_bullet(pos, hurt_type),
    {
        let vel = match hurt_type {
            BulletHurtType::Enemy => vec2(0, -PLAYER_BULLET_SPEED),
            BulletHurtType::Player => vec2(0, ENEMY_BULLET_SPEED),
        };
        Bullet {
            pos,
            vel,
            hurt_type,
            anim_timer: 0,
            collision_rect: Rect::new(pos.x, pos.y, BULLET_W, BULLET_H),
            is_kill: false,
        }
    }

    /// Moves the bullet by `vel * dt` and keeps its box on its position.
    pub fn update(&mut self, dt: u32)
        requires
            old(self).wf(),
        ensures
            final(self).pos.x == old(self).pos.x + old(self).vel.x * dt,
            final(self).pos.y == old(self).pos.y + old(self).vel.y * dt,
            final(self).collision_rect == bullet_rect(final(self).pos),
            final(self).vel == old(self).vel,
            final(self).hurt_type == old(self).hurt_type,
            final(self).is_kill == old(self).is_kill,
            final(self).anim_timer == if old(self).anim_timer + dt > u64::MAX {
                u64::MAX as int
            } else {
                old(self).anim_timer + dt
            },
    {
        let d = dt as i64;
        proof {
            let vy = self.vel.y as int;
            assert(vy == 80 || vy == -80);
            assert(-80 * (d as int) <= vy * d <= 80 * (d as int)) by (nonlinear_arith)
                requires
                    vy == 80 || vy == -80,
                    d >= 0,
            ;
        }
        self.pos = vec2(self.pos.x + self.vel.x * d, self.pos.y + self.vel.y * d);
        self.anim_timer = self.anim_timer.saturating_add(dt as u64);
        self.collision_rect.x = self.pos.x;
        self.collision_rect.y = self.pos.y;
    }

    pub fn overlaps(&self, other_rect: &Rect) -> (r: bool)
        ensures
            r == crate::geom::rects_overlap(self.collision_rect, *other_rect),
    {
        self.collision_rect.overlaps(other_rect)
    }

    /// Frame of the three-frame flight animation; past the animation's end it
    /// stays on the last frame.
    pub fn frame_index(&self) -> (r: u32)
        ensures
            r <= 2,
            self.anim_timer >= BULLET_ANIM_TIME_SPAWN ==> r == 2,
            self.anim_timer < BULLET_ANIM_TIME_SPAWN ==> r == self.anim_timer * 3
                / BULLET_ANIM_TIME_SPAWN as int,
    {
        if self.anim_timer >= BULLET_ANIM_TIME_SPAWN {
            2
        } else {
            (self.anim_timer * 3 / BULLET_ANIM_TIME_SPAWN) as u32
        }
    }
}

} // verus!
