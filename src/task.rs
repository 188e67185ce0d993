//! The static definition of a task and the commands a run produces.
use vstd::prelude::*;

use crate::geom::{COORD_LIMIT, Point};

verus! {

/// Largest hit-point, gold, experience or attack value of a monster: gold
/// scaled for scoring, and the sum of all passive attacks of a turn, stay
/// within `i64`.
pub const VALUE_LIMIT: i64 = 1_000_000_000_000;

/// The hero's base stats and per-level growth, in percent per level.
#[derive(Clone, Copy, Debug)]
pub struct Hero {
    pub base_speed: i64,
    pub base_power: i64,
    pub base_range: i64,
    pub level_speed_coeff: i64,
    pub level_power_coeff: i64,
    pub level_range_coeff: i64,
}

impl Hero {
    /// Stats and growth coefficients are non-negative.
    pub open spec fn wf(self) -> bool {
        &&& self.base_speed >= 0
        &&& self.base_power >= 0
        &&& self.base_range >= 0
        &&& self.level_speed_coeff >= 0
        &&& self.level_power_coeff >= 0
        &&& self.level_range_coeff >= 0
    }
}

/// A monster as the task places it.
#[derive(Clone, Copy, Debug)]
pub struct Monster {
    pub x: i64,
    pub y: i64,
    pub hp: i64,
    pub gold: i64,
    pub exp: i64,
    pub range: i64,
    pub attack: i64,
}

impl Monster {
    pub open spec fn position(self) -> Point {
        Point { x: self.x, y: self.y }
    }

    /// Its position is bounded and its values are non-negative and within
    /// `VALUE_LIMIT` (the range needs no upper bound).
    pub open spec fn wf(self) -> bool {
        &&& self.position().bounded()
        &&& 0 <= self.hp <= VALUE_LIMIT
        &&& 0 <= self.gold <= VALUE_LIMIT
        &&& 0 <= self.exp <= VALUE_LIMIT
        &&& 0 <= self.attack <= VALUE_LIMIT
        &&& self.range >= 0
    }
}

/// The static definition of one game.
#[derive(Debug)]
pub struct Task {
    pub hero: Hero,
    pub start_x: i64,
    pub start_y: i64,
    pub width: i64,
    pub height: i64,
    pub num_turns: i64,
    pub monsters: Vec<Monster>,
}

impl Task {
    pub open spec fn start(self) -> Point {
        Point { x: self.start_x, y: self.start_y }
    }

    /// The field `[0, width] x [0, height]` and every position lie within
    /// `COORD_LIMIT`, and the hero and all monsters are well formed.
    pub open spec fn wf(self) -> bool {
        &&& self.hero.wf()
        &&& 0 <= self.width <= COORD_LIMIT
        &&& 0 <= self.height <= COORD_LIMIT
        &&& self.start().bounded()
        &&& forall|i: int| 0 <= i < self.monsters@.len() ==> #[trigger] self.monsters@[i].wf()
    }
}

impl Hero {
    /// Whether the stats and growth coefficients are non-negative.
    pub fn is_valid(&self) -> (r: bool)
        ensures
            r == self.wf(),
    {
        self.base_speed >= 0 && self.base_power >= 0 && self.base_range >= 0 && self.level_speed_coeff >= 0
            && self.level_power_coeff >= 0 && self.level_range_coeff >= 0
    }
}

impl Monster {
    /// Whether the monster is well formed (see `wf`).
    pub fn is_valid(&self) -> (r: bool)
        ensures
            r == self.wf(),
    {
        -COORD_LIMIT <= self.x && self.x <= COORD_LIMIT && -COORD_LIMIT <= self.y && self.y <= COORD_LIMIT
            && 0 <= self.hp && self.hp <= VALUE_LIMIT && 0 <= self.gold && self.gold <= VALUE_LIMIT
            && 0 <= self.exp && self.exp <= VALUE_LIMIT && 0 <= self.attack && self.attack <= VALUE_LIMIT
            && self.range >= 0
    }
}

impl Task {
    /// Whether the task is well formed (see `wf`).
    pub fn is_valid(&self) -> (r: bool)
        ensures
            r == self.wf(),
    {
        if !self.hero.is_valid() || self.width < 0 || self.width > COORD_LIMIT || self.height < 0
            || self.height > COORD_LIMIT || self.start_x < -COORD_LIMIT || self.start_x > COORD_LIMIT
            || self.start_y < -COORD_LIMIT || self.start_y > COORD_LIMIT {
            return false;
        }
        let mut i: usize = 0;
        while i < self.monsters.len()
            invariant
                i <= self.monsters@.len(),
                forall|j: int| 0 <= j < i ==> #[trigger] self.monsters@[j].wf(),
            decreases self.monsters@.len() - i,
        {
            if !self.monsters[i].is_valid() {
                return false;
            }
            i = i + 1;
        }
        true
    }
}

/// One turn of a run: a move to a point, or an attack on a monster by id.
#[derive(Clone, Debug)]
pub enum Command {
    Move { comment: Option<String>, target_x: i64, target_y: i64 },
    Attack { comment: Option<String>, target_id: usize },
}

/// The commands of one complete run, in order.
#[derive(Debug)]
pub struct Solution {
    pub moves: Vec<Command>,
}

fn copy_comment(c: &Option<String>) -> (r: Option<String>)
    ensures
        r == *c,
{
    match c {
        Some(s) => Some(s.clone()),
        None => None,
    }
}

impl Command {
    /// A copy equal to `self`.
    pub fn duplicate(&self) -> (r: Command)
        ensures
            r == *self,
    {
        match self {
            Command::Move { comment, target_x, target_y } => Command::Move {
                comment: copy_comment(comment),
                target_x: *target_x,
                target_y: *target_y,
            },
            Command::Attack { comment, target_id } => Command::Attack {
                comment: copy_comment(comment),
                target_id: *target_id,
            },
        }
    }
}

impl Solution {
    /// A solution holding a copy of `commands`.
    pub fn from_commands(commands: &Vec<Command>) -> (s: Solution)
        ensures
            s.moves@ == commands@,
    {
        let mut moves: Vec<Command> = Vec::new();
        let mut i: usize = 0;
        while i < commands.len()
            invariant
                i <= commands.len(),
                moves@ == commands@.take(i as int),
            decreases commands.len() - i,
        {
            moves.push(commands[i].duplicate());
            i = i + 1;
            assert(moves@ =~= commands@.take(i as int));
        }
        assert(commands@.take(commands.len() as int) =~= commands@);
        Solution { moves }
    }
}

} // verus!
