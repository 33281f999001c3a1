use vstd::prelude::*;

use crate::constants::SPRITE_LIMIT;
use crate::enemy::{EnemyColor, EnemyType};
use crate::rng::{gen_range, RANGE_LIMIT};

verus! {

/// Sounds that the simulation asks the audio sink to play.
#[derive(Clone, Copy, Debug, PartialEq, Eq, Structural, Hash)]
pub enum SoundIdentifier {
    EnemyShoot,
    EnemyOuch,
    PlayerOuch,
    PlayerShoot,
    SpawnMini,
    Spawn,
    Warning,
    WaveCleared,
}

/// A request to play a sound at a volume given in percent.
#[derive(Clone, Copy, Debug, PartialEq, Eq, Structural)]
pub struct SoundCue {
    pub sound: SoundIdentifier,
    pub volume: u32,
}

pub open spec fn cue(sound: SoundIdentifier, volume: u32) -> SoundCue {
    SoundCue { sound, volume }
}

pub fn sound_cue(sound: SoundIdentifier, volume: u32) -> (r: SoundCue)
    ensures
        r == cue(sound, volume),
{
    SoundCue { sound, volume }
}

/// What the simulation knows of a texture: which one it is among those of
/// its kind, and its size in milli-units.
#[derive(Clone, Copy, Debug, PartialEq, Eq, Structural)]
pub struct Sprite {
    pub variant: u32,
    pub w: i64,
    pub h: i64,
}

impl Sprite {
    pub open spec fn wf(&self) -> bool {
        0 <= self.w <= SPRITE_LIMIT && 0 <= self.h <= SPRITE_LIMIT
    }
}

/// The sprite table: the textures of each enemy kind and the sizes of the
/// player's and the ground's textures.
pub struct Resources {
    pub demons_normal_purple: Vec<Sprite>,
    pub demons_normal_green: Vec<Sprite>,
    pub demons_normal_red: Vec<Sprite>,
    pub demons_mini_purple: Vec<Sprite>,
    pub demons_mini_green: Vec<Sprite>,
    pub demons_mini_red: Vec<Sprite>,
    pub player: Sprite,
    pub ground_bg: Sprite,
}

pub open spec fn sprite_list_ok(l: Seq<Sprite>) -> bool {
    &&& 0 < l.len() <= RANGE_LIMIT
    &&& forall|i: int| 0 <= i < l.len() ==> (#[trigger] l[i]).wf()
}

impl Resources {
    /// The textures of one enemy type and color.
    pub open spec fn sprites(&self, enemy_type: EnemyType, color: EnemyColor) -> Seq<Sprite> {
        match (enemy_type, color) {
            (EnemyType::Normal, EnemyColor::Purple) => self.demons_normal_purple@,
            (EnemyType::Normal, EnemyColor::Green) => self.demons_normal_green@,
            (EnemyType::Normal, EnemyColor::Red) => self.demons_normal_red@,
            (EnemyType::Mini, EnemyColor::Purple) => self.demons_mini_purple@,
            (EnemyType::Mini, EnemyColor::Green) => self.demons_mini_green@,
            (EnemyType::Mini, EnemyColor::Red) => self.demons_mini_red@,
        }
    }

    /// Every enemy kind has at least one texture, and all sizes are in range.
    pub open spec fn wf(&self) -> bool {
        &&& forall|t: EnemyType, c: EnemyColor| sprite_list_ok(#[trigger] self.sprites(t, c))
        &&& self.player.wf()
        &&& self.ground_bg.wf()
    }

    pub fn new(player: Sprite, ground_bg: Sprite) -> (r: Resources)
        ensures
            r.player == player,
            r.ground_bg == ground_bg,
            forall|t: EnemyType, c: EnemyColor| (#[trigger] r.sprites(t, c)).len() == 0,
    {
        Resources {
            demons_normal_purple: Vec::new(),
            demons_normal_green: Vec::new(),
            demons_normal_red: Vec::new(),
            demons_mini_purple: Vec::new(),
            demons_mini_green: Vec::new(),
            demons_mini_red: Vec::new(),
            player,
            ground_bg,
        }
    }

    /// Registers a loaded enemy texture under its color and type.
    pub fn load_texture(&mut self, sprite: Sprite, enemy_color: EnemyColor, enemy_type: EnemyType)
        ensures
            final(self).player == old(self).player,
            final(self).ground_bg == old(self).ground_bg,
            final(self).sprites(enemy_type, enemy_color) == old(self).sprites(
                enemy_type,
                enemy_color,
            ).push(sprite),
            forall|t: EnemyType, c: EnemyColor|
                !(t == enemy_type && c == enemy_color) ==> #[trigger] final(self).sprites(t, c)
                    == old(self).sprites(t, c),
    {
        match enemy_type {
            EnemyType::Normal => match enemy_color {
                EnemyColor::Purple => self.demons_normal_purple.push(sprite),
                EnemyColor::Green => self.demons_normal_green.push(sprite),
                EnemyColor::Red => self.demons_normal_red.push(sprite),
            },
            EnemyType::Mini => match enemy_color {
                EnemyColor::Purple => self.demons_mini_purple.push(sprite),
                EnemyColor::Green => self.demons_mini_green.push(sprite),
                EnemyColor::Red => self.demons_mini_red.push(sprite),
            },
        }
    }

    /// One of the textures of a normal enemy of this color, drawn at random.
    pub fn rand_enemy_normal(&self, enemy_color: EnemyColor) -> (r: Sprite)
        requires
            sprite_list_ok(self.sprites(EnemyType::Normal, enemy_color)),
        ensures
            self.sprites(EnemyType::Normal, enemy_color).contains(r),
    {
        let normal_list = match enemy_color {
            EnemyColor::Purple => &self.demons_normal_purple,
            EnemyColor::Green => &self.demons_normal_green,
            EnemyColor::Red => &self.demons_normal_red,
        };
        let i = gen_range(0, normal_list.len() as u32) as usize;
        normal_list[i]
    }

    /// One of the textures of a mini enemy of this color, drawn at random.
    pub fn rand_enemy_mini(&self, enemy_color: EnemyColor) -> (r: Sprite)
        requires
            sprite_list_ok(self.sprites(EnemyType::Mini, enemy_color)),
        ensures
            self.sprites(EnemyType::Mini, enemy_color).contains(r),
    {
        let mini_list = match enemy_color {
            EnemyColor::Purple => &self.demons_mini_purple,
            EnemyColor::Green => &self.demons_mini_green,
            EnemyColor::Red => &self.demons_mini_red,
        };
        let i = gen_range(0, mini_list.len() as u32) as usize;
        mini_list[i]
    }
}

} // verus!
