//! The simulation engine: hero progression, monster health, and the only
//! legal transitions of a game, a move and an attack.
use vstd::prelude::*;
use vstd::arithmetic::div_mod::{lemma_div_by_multiple, lemma_div_is_ordered_by_denominator, lemma_div_pos_is_pos};

use crate::geom::{lemma_bounded_dst_fits, Point};
use crate::task::{Command, Hero, Monster, Solution, Task, VALUE_LIMIT};

verus! {

/// Experience needed to reach level `l` from level `l - 1`.
pub open spec fn spec_exp_for_lvl(l: int) -> int {
    1000 + l * (l - 1) * 50
}

/// A stat at level `lvl`: the base grown by `coeff` percent per level,
/// the growth truncated.
pub open spec fn stat_at(base: int, lvl: int, coeff: int) -> int {
    base + base * lvl * coeff / 100
}

/// The threshold of the next level exceeds the current level, and is at least 1000.
pub proof fn lemma_threshold_grows(l: int)
    requires
        l >= 0,
    ensures
        spec_exp_for_lvl(l + 1) >= l + 1000,
{
    assert((l + 1) * l * 50 >= l) by (nonlinear_arith)
        requires
            l >= 0,
    ;
}

fn compute_stat(base: i64, lvl: i64, coeff: i64) -> (r: i64)
    requires
        base >= 0,
        lvl >= 0,
        coeff >= 0,
        stat_at(base as int, lvl as int, coeff as int) <= i64::MAX,
    ensures
        r == stat_at(base as int, lvl as int, coeff as int),
{
    let b: i128 = base as i128;
    let l: i128 = lvl as i128;
    let c: i128 = coeff as i128;
    proof {
        assert(0 <= b * l <= 0x4000_0000_0000_0000_0000_0000_0000_0000) by (nonlinear_arith)
            requires
                0 <= b <= 0x7fff_ffff_ffff_ffff,
                0 <= l <= 0x7fff_ffff_ffff_ffff,
        ;
        assert(0 <= b * l * c);
        assert(b * l * c / 100 <= 0x7fff_ffff_ffff_ffff);
        assert(b * l * c < 100 * 0x8000_0000_0000_0000);
    }
    let grown: i128 = b * l * c / 100;
    (b + grown) as i64
}

/// `wf` of a game, from its parts.
proof fn lemma_wf_from_parts(g: GameState)
    requires
        g.task.wf(),
        g.hero.wf(),
        g.hero.hero == g.task.hero,
        g.score >= 0,
        g.monsters@.len() == g.task.monsters@.len(),
        forall|j: int|
            0 <= j < g.monsters@.len() ==> #[trigger] g.monsters@[j].wf(j) && g.monsters@[j].monster
                == g.task.monsters@[j],
    ensures
        g.wf(),
{
}

fn stat_fits(base: i64, lvl: i64, coeff: i64) -> (r: bool)
    requires
        base >= 0,
        lvl >= 0,
        coeff >= 0,
    ensures
        r == (stat_at(base as int, lvl as int, coeff as int) <= i64::MAX),
{
    let b: i128 = base as i128;
    let l: i128 = lvl as i128;
    proof {
        assert(0 <= b * l <= 0x4000_0000_0000_0000_0000_0000_0000_0000) by (nonlinear_arith)
            requires
                0 <= b <= 0x7fff_ffff_ffff_ffff,
                0 <= l <= 0x7fff_ffff_ffff_ffff,
        ;
        assert(0 <= b * l * coeff);
    }
    match (b * l).checked_mul(coeff as i128) {
        None => false,
        Some(grown) => b + grown / 100 <= i64::MAX as i128,
    }
}

/// The hero as a game goes on: the task's template plus position, level,
/// experience toward the next level and accumulated fatigue.
#[derive(Clone, Copy, Debug)]
pub struct HeroState {
    pub hero: Hero,
    pub p: Point,
    pub lvl: i64,
    pub exp: i64,
    pub fatigue: i64,
}

impl HeroState {
    pub open spec fn wf(self) -> bool {
        &&& self.hero.wf()
        &&& self.p.bounded()
        &&& self.lvl >= 0
        &&& self.exp >= 0
        &&& self.fatigue >= 0
    }

    pub open spec fn spec_speed(self) -> int {
        stat_at(self.hero.base_speed as int, self.lvl as int, self.hero.level_speed_coeff as int)
    }

    pub open spec fn spec_power(self) -> int {
        stat_at(self.hero.base_power as int, self.lvl as int, self.hero.level_power_coeff as int)
    }

    pub open spec fn spec_range(self) -> int {
        stat_at(self.hero.base_range as int, self.lvl as int, self.hero.level_range_coeff as int)
    }

    /// The hero after `gained` experience: one level up, and the threshold
    /// taken off, when the total reaches the next level's threshold.
    pub open spec fn spec_gain(self, gained: int) -> HeroState {
        let total = self.exp + gained;
        let need = spec_exp_for_lvl(self.lvl + 1);
        if total >= need {
            HeroState { lvl: (self.lvl + 1) as i64, exp: (total - need) as i64, ..self }
        } else {
            HeroState { exp: total as i64, ..self }
        }
    }

    /// The hero moved to `p`.
    pub open spec fn at(self, p: Point) -> HeroState {
        HeroState { p, ..self }
    }

    /// The hero after taking `damage` in passive attacks.
    pub open spec fn tired(self, damage: int) -> HeroState {
        HeroState { fatigue: (self.fatigue + damage) as i64, ..self }
    }

    pub fn exp_for_lvl(l: i64) -> (r: i64)
        requires
            l >= 0,
            spec_exp_for_lvl(l as int) <= i64::MAX,
        ensures
            r == spec_exp_for_lvl(l as int),
    {
        let a: i128 = l as i128;
        proof {
            assert(0 <= a * (a - 1) * 50) by (nonlinear_arith)
                requires
                    a >= 0,
            ;
        }
        (1000 + a * (a - 1) * 50) as i64
    }

    pub fn add_exp(&mut self, exp: i64)
        requires
            exp >= 0,
            old(self).lvl >= 0,
            old(self).exp + exp <= i64::MAX,
            spec_exp_for_lvl(old(self).lvl + 1) <= i64::MAX,
        ensures
            *final(self) == old(self).spec_gain(exp as int),
            old(self).wf() ==> final(self).wf(),
    {
        proof {
            lemma_threshold_grows(self.lvl as int);
        }
        self.exp = self.exp + exp;
        let lvl_up_exp = Self::exp_for_lvl(self.lvl + 1);
        if self.exp >= lvl_up_exp {
            self.exp = self.exp - lvl_up_exp;
            self.lvl = self.lvl + 1;
        }
    }

    pub fn exp_before_next_lvl(&self) -> (r: i64)
        requires
            self.lvl >= 0,
            self.exp >= 0,
            spec_exp_for_lvl(self.lvl + 1) <= i64::MAX,
        ensures
            r == spec_exp_for_lvl(self.lvl + 1) - self.exp,
    {
        proof {
            lemma_threshold_grows(self.lvl as int);
        }
        let lvl_up_exp = Self::exp_for_lvl(self.lvl + 1);
        lvl_up_exp - self.exp
    }

    pub fn speed(&self) -> (r: i64)
        requires
            self.wf(),
            self.spec_speed() <= i64::MAX,
        ensures
            r == self.spec_speed(),
    {
        compute_stat(self.hero.base_speed, self.lvl, self.hero.level_speed_coeff)
    }

    pub fn power(&self) -> (r: i64)
        requires
            self.wf(),
            self.spec_power() <= i64::MAX,
        ensures
            r == self.spec_power(),
    {
        compute_stat(self.hero.base_power, self.lvl, self.hero.level_power_coeff)
    }

    pub fn range(&self) -> (r: i64)
        requires
            self.wf(),
            self.spec_range() <= i64::MAX,
        ensures
            r == self.spec_range(),
    {
        compute_stat(self.hero.base_range, self.lvl, self.hero.level_range_coeff)
    }
}

/// Stable handle of a monster: its index in spawn order.
pub type MonsterId = usize;

/// A monster as a game goes on. Its rewards are zeroed when it dies.
#[derive(Clone, Copy, Debug)]
pub struct MonsterState {
    pub monster: Monster,
    pub id: MonsterId,
    pub p: Point,
    pub hp: i64,
    pub gold: i64,
    pub exp: i64,
}

struct Reward {
    gold: i64,
    exp: i64,
}

/// Why a command was rejected.
#[derive(Clone, Copy, Debug, PartialEq, Eq, Structural)]
pub enum MoveError {
    OutOfField,
    MoveOutOfRange,
    AttackOutOfRange,
    MonsterIsDead,
}

pub type MoveResult<T> = Result<T, MoveError>;

impl MonsterState {
    /// The monster with id `id` as it spawns from `m`.
    pub open spec fn spawn(m: Monster, id: MonsterId) -> MonsterState {
        MonsterState { monster: m, id, p: m.position(), hp: m.hp, gold: m.gold, exp: m.exp }
    }

    /// It stands at `id` among the monsters of its game, where its template
    /// placed it, with no more health or reward than it spawned with.
    pub open spec fn wf(self, id: int) -> bool {
        &&& self.monster.wf()
        &&& self.id == id
        &&& self.p == self.monster.position()
        &&& 0 <= self.hp <= self.monster.hp
        &&& 0 <= self.gold <= self.monster.gold
        &&& 0 <= self.exp <= self.monster.exp
    }

    /// The monster after `dmg` damage: hit points floored at zero, rewards
    /// zeroed once they reach zero.
    pub open spec fn spec_hit(self, dmg: int) -> MonsterState {
        if self.hp - dmg <= 0 {
            MonsterState { hp: 0, gold: 0, exp: 0, ..self }
        } else {
            MonsterState { hp: (self.hp - dmg) as i64, ..self }
        }
    }

    fn take_damage(&mut self, dmg: i64) -> (r: MoveResult<Option<Reward>>)
        requires
            dmg >= 0,
            old(self).hp >= 0,
        ensures
            old(self).hp == 0 ==> r == Err::<Option<Reward>, MoveError>(MoveError::MonsterIsDead)
                && *final(self) == *old(self),
            old(self).hp != 0 ==> *final(self) == old(self).spec_hit(dmg as int),
            old(self).hp != 0 && final(self).hp == 0 ==> r == Ok::<Option<Reward>, MoveError>(
                Some(Reward { gold: old(self).gold, exp: old(self).exp }),
            ),
            old(self).hp != 0 && final(self).hp != 0 ==> r == Ok::<Option<Reward>, MoveError>(None),
    {
        if self.hp == 0 {
            return Err(MoveError::MonsterIsDead);
        }
        self.hp = if self.hp - dmg > 0 { self.hp - dmg } else { 0 };
        if self.hp == 0 {
            let reward = Reward { gold: self.gold, exp: self.exp };
            self.gold = 0;
            self.exp = 0;
            Ok(Some(reward))
        } else {
            Ok(None)
        }
    }
}

/// Passive damage `m` deals to a hero standing at `at`: its attack while it
/// is alive and `at` is within its range.
pub open spec fn passive_attack(m: MonsterState, at: Point) -> int {
    if m.hp != 0 && m.p.spec_in_radius(at, m.monster.range as int) {
        m.monster.attack as int
    } else {
        0
    }
}

/// Total passive damage the monsters `ms` deal to a hero at `at`.
pub open spec fn pressure(ms: Seq<MonsterState>, at: Point) -> int
    decreases ms.len(),
{
    if ms.len() == 0 {
        0
    } else {
        pressure(ms.drop_last(), at) + passive_attack(ms.last(), at)
    }
}

/// Ids of the monsters of `ms` that are alive, in order.
pub open spec fn alive_ids(ms: Seq<MonsterState>) -> Seq<MonsterId>
    decreases ms.len(),
{
    if ms.len() == 0 {
        Seq::empty()
    } else if ms.last().hp != 0 {
        alive_ids(ms.drop_last()).push(ms.last().id)
    } else {
        alive_ids(ms.drop_last())
    }
}

/// Score that `gold` is worth to a hero with `fatigue`.
pub open spec fn gold_score(gold: int, fatigue: int) -> int {
    gold * 1000 / (1000 + fatigue)
}

/// A game in progress.
#[derive(Debug)]
pub struct GameState {
    pub task: Task,
    pub score: i64,
    pub hero: HeroState,
    pub monsters: Vec<MonsterState>,
    pub commands: Vec<Command>,
}

impl GameState {
    /// The task and the hero are well formed, the hero follows the task's
    /// template, and monster `i` follows the task's monster `i`.
    pub open spec fn wf(self) -> bool {
        &&& self.task.wf()
        &&& self.hero.wf()
        &&& self.hero.hero == self.task.hero
        &&& self.score >= 0
        &&& self.monsters@.len() == self.task.monsters@.len()
        &&& forall|i: int|
            0 <= i < self.monsters@.len() ==> {
                &&& #[trigger] self.monsters@[i].wf(i)
                &&& self.monsters@[i].monster == self.task.monsters@[i]
            }
    }

    /// One more turn stays within `i64`: the hero's stats, the next level's
    /// threshold, experience and score after one more reward, fatigue after
    /// one more round of passive damage, and the turn count.
    pub open spec fn has_headroom(self) -> bool {
        &&& self.hero.spec_speed() <= i64::MAX
        &&& self.hero.spec_power() <= i64::MAX
        &&& self.hero.spec_range() <= i64::MAX
        &&& spec_exp_for_lvl(self.hero.lvl + 1) <= i64::MAX
        &&& self.hero.exp + VALUE_LIMIT <= i64::MAX
        &&& self.score + VALUE_LIMIT <= i64::MAX
        &&& self.hero.fatigue + self.monsters@.len() * VALUE_LIMIT <= i64::MAX
        &&& self.commands@.len() < i64::MAX
    }

    pub open spec fn in_field(self, x: int, y: int) -> bool {
        0 <= x <= self.task.width && 0 <= y <= self.task.height
    }

    pub open spec fn spec_can_attack(self, target_id: int) -> bool {
        self.monsters@[target_id].p.spec_in_radius(self.hero.p, self.hero.spec_range())
    }

    pub open spec fn spec_is_game_over(self) -> bool {
        self.commands@.len() >= self.task.num_turns
    }

    /// The tasks hold the same values.
    pub open spec fn same_task(a: Task, b: Task) -> bool {
        &&& a.hero == b.hero
        &&& a.start_x == b.start_x
        &&& a.start_y == b.start_y
        &&& a.width == b.width
        &&& a.height == b.height
        &&& a.num_turns == b.num_turns
        &&& a.monsters@ == b.monsters@
    }

    /// This is the game as `task` starts it: the hero at the start point at
    /// level 0 with no experience or fatigue, every monster as it spawns,
    /// no score and nothing logged.
    pub open spec fn fresh_from(self, task: Task) -> bool {
        &&& Self::same_task(self.task, task)
        &&& self.score == 0
        &&& self.hero == (HeroState { hero: task.hero, p: task.start(), lvl: 0, exp: 0, fatigue: 0 })
        &&& self.monsters@.len() == task.monsters@.len()
        &&& forall|i: int|
            0 <= i < self.monsters@.len() ==> #[trigger] self.monsters@[i] == MonsterState::spawn(
                task.monsters@[i],
                i as MonsterId,
            )
        &&& self.commands@.len() == 0
    }

    /// The two games hold the same values.
    pub open spec fn agrees(self, other: GameState) -> bool {
        &&& Self::same_task(self.task, other.task)
        &&& self.score == other.score
        &&& self.hero == other.hero
        &&& self.monsters@ == other.monsters@
        &&& self.commands@ == other.commands@
    }

    /// `next` is this game after a successful move to `(x, y)`: the hero
    /// stands there, the move is logged, and the passive damage of the
    /// monsters around that point is added to fatigue.
    pub open spec fn moved(self, next: GameState, x: i64, y: i64, comment: Option<String>) -> bool {
        let dest = Point { x, y };
        &&& Self::same_task(next.task, self.task)
        &&& next.score == self.score
        &&& next.monsters@ == self.monsters@
        &&& next.hero == self.hero.at(dest).tired(pressure(self.monsters@, dest))
        &&& next.commands@ == self.commands@.push(Command::Move { comment, target_x: x, target_y: y })
    }

    /// `next` is this game after a successful attack on `target_id`: the
    /// target takes the hero's power in damage; if that kills it, its
    /// experience goes to the hero and its gold, discounted by fatigue, to
    /// the score; the attack is logged, and passive damage follows.
    pub open spec fn attacked(self, next: GameState, target_id: MonsterId, comment: Option<String>) -> bool {
        let m = self.monsters@[target_id as int];
        let hit = m.spec_hit(self.hero.spec_power());
        let killed = hit.hp == 0;
        let hero = if killed { self.hero.spec_gain(m.exp as int) } else { self.hero };
        let monsters = self.monsters@.update(target_id as int, hit);
        &&& Self::same_task(next.task, self.task)
        &&& next.monsters@ == monsters
        &&& next.hero == hero.tired(pressure(monsters, self.hero.p))
        &&& next.score == self.score + if killed { gold_score(m.gold as int, self.hero.fatigue as int) } else { 0 }
        &&& next.commands@ == self.commands@.push(Command::Attack { comment, target_id })
    }

    pub fn steps(&self) -> (r: i64)
        requires
            self.commands@.len() <= i64::MAX,
        ensures
            r == self.commands@.len(),
    {
        self.commands.len() as i64
    }

    pub fn is_game_over(&self) -> (r: bool)
        ensures
            r == self.spec_is_game_over(),
    {
        (self.commands.len() as i128) >= (self.task.num_turns as i128)
    }

    pub fn alive_monsters(&self) -> (r: Vec<MonsterId>)
        ensures
            r@ == alive_ids(self.monsters@),
    {
        let mut ids: Vec<MonsterId> = Vec::new();
        let mut i: usize = 0;
        while i < self.monsters.len()
            invariant
                i <= self.monsters@.len(),
                ids@ == alive_ids(self.monsters@.take(i as int)),
            decreases self.monsters@.len() - i,
        {
            assert(self.monsters@.take(i as int + 1).drop_last() =~= self.monsters@.take(i as int));
            if self.monsters[i].hp != 0 {
                ids.push(self.monsters[i].id);
            }
            i = i + 1;
        }
        assert(self.monsters@.take(i as int) =~= self.monsters@);
        ids
    }

    pub fn monsters_attack(&mut self)
        requires
            old(self).wf(),
            old(self).hero.fatigue + old(self).monsters@.len() * VALUE_LIMIT <= i64::MAX,
        ensures
            final(self).wf(),
            Self::same_task(final(self).task, old(self).task),
            final(self).score == old(self).score,
            final(self).monsters@ == old(self).monsters@,
            final(self).commands@ == old(self).commands@,
            final(self).hero == old(self).hero.tired(pressure(old(self).monsters@, old(self).hero.p)),
            pressure(old(self).monsters@, old(self).hero.p) >= 0,
    {
        let mut fatigue: i64 = 0;
        let mut i: usize = 0;
        while i < self.monsters.len()
            invariant
                self.wf(),
                self.hero.fatigue + self.monsters@.len() * VALUE_LIMIT <= i64::MAX,
                i <= self.monsters@.len(),
                fatigue == pressure(self.monsters@.take(i as int), self.hero.p),
                0 <= fatigue <= i * VALUE_LIMIT,
            decreases self.monsters@.len() - i,
        {
            assert(self.monsters@.take(i as int + 1).drop_last() =~= self.monsters@.take(i as int));
            let m = &self.monsters[i];
            assert(m.wf(i as int));
            if m.hp != 0 {
                proof {
                    lemma_bounded_dst_fits(m.p, self.hero.p);
                }
                if m.p.is_in_radius_of(&self.hero.p, m.monster.range) {
                    fatigue = fatigue + m.monster.attack;
                }
            }
            i = i + 1;
        }
        assert(self.monsters@.take(i as int) =~= self.monsters@);
        self.hero.fatigue = self.hero.fatigue + fatigue;
    }

    /// The game at its start: the hero at the task's start point at level 0,
    /// every monster at full health, nothing logged.
    pub fn new(task: &Task) -> (g: GameState)
        requires
            task.wf(),
        ensures
            g.wf(),
            g.fresh_from(*task),
    {
        let mut monsters: Vec<MonsterState> = Vec::new();
        let mut templates: Vec<Monster> = Vec::new();
        let mut i: usize = 0;
        while i < task.monsters.len()
            invariant
                task.wf(),
                i <= task.monsters@.len(),
                templates@ == task.monsters@.take(i as int),
                monsters@.len() == i,
                forall|j: int|
                    0 <= j < i ==> #[trigger] monsters@[j] == MonsterState::spawn(
                        task.monsters@[j],
                        j as MonsterId,
                    ),
            decreases task.monsters@.len() - i,
        {
            let m = task.monsters[i];
            monsters.push(
                MonsterState { monster: m, id: i, p: Point::new(m.x, m.y), hp: m.hp, gold: m.gold, exp: m.exp },
            );
            templates.push(m);
            i = i + 1;
            assert(templates@ =~= task.monsters@.take(i as int));
        }
        assert(templates@ =~= task.monsters@);
        let copy = Task {
            hero: task.hero,
            start_x: task.start_x,
            start_y: task.start_y,
            width: task.width,
            height: task.height,
            num_turns: task.num_turns,
            monsters: templates,
        };
        let g = GameState {
            task: copy,
            score: 0,
            hero: HeroState { hero: task.hero, p: Point::new(task.start_x, task.start_y), lvl: 0, exp: 0, fatigue: 0 },
            monsters,
            commands: Vec::new(),
        };
        assert forall|j: int| 0 <= j < g.monsters@.len() implies #[trigger] g.monsters@[j].wf(j)
            && g.monsters@[j].monster == g.task.monsters@[j] by {
            assert(task.monsters@[j].wf());
        }
        g
    }

    pub fn can_attack(&self, target_id: MonsterId) -> (r: bool)
        requires
            self.wf(),
            self.hero.spec_range() <= i64::MAX,
            target_id < self.monsters@.len(),
        ensures
            r == self.spec_can_attack(target_id as int),
    {
        let range = self.hero.range();
        let m = &self.monsters[target_id];
        assert(m.wf(target_id as int));
        proof {
            lemma_bounded_dst_fits(m.p, self.hero.p);
        }
        m.p.is_in_radius_of(&self.hero.p, range)
    }

    fn gold_to_score(&self, gold: i64) -> (r: i64)
        requires
            0 <= gold <= VALUE_LIMIT,
            0 <= self.hero.fatigue <= i64::MAX - 1000,
        ensures
            r == gold_score(gold as int, self.hero.fatigue as int),
            0 <= r <= gold,
    {
        let scaled: i64 = gold * 1000;
        proof {
            lemma_div_is_ordered_by_denominator(scaled as int, 1000, 1000 + self.hero.fatigue);
            lemma_div_by_multiple(gold as int, 1000);
            lemma_div_pos_is_pos(scaled as int, 1000 + self.hero.fatigue);
        }
        scaled / (1000 + self.hero.fatigue)
    }

    pub fn do_move(&mut self, x: i64, y: i64, comment: Option<String>) -> (r: MoveResult<()>)
        requires
            old(self).wf(),
            old(self).has_headroom(),
        ensures
            final(self).wf(),
            !old(self).in_field(x as int, y as int) ==> r == Err::<(), MoveError>(MoveError::OutOfField)
                && *final(self) == *old(self),
            old(self).in_field(x as int, y as int) && !old(self).hero.p.spec_in_radius(
                (Point { x, y }),
                old(self).hero.spec_speed(),
            ) ==> r == Err::<(), MoveError>(MoveError::MoveOutOfRange) && *final(self) == *old(self),
            old(self).in_field(x as int, y as int) && old(self).hero.p.spec_in_radius(
                (Point { x, y }),
                old(self).hero.spec_speed(),
            ) ==> r == Ok::<(), MoveError>(()) && old(self).moved(*final(self), x, y, comment),
    {
        if x < 0 || y < 0 || x > self.task.width || y > self.task.height {
            return Err(MoveError::OutOfField);
        }
        let speed = self.hero.speed();
        let dest = Point::new(x, y);
        proof {
            lemma_bounded_dst_fits(self.hero.p, dest);
        }
        if !self.hero.p.is_in_radius_of(&dest, speed) {
            return Err(MoveError::MoveOutOfRange);
        }
        self.hero.p = dest;
        self.commands.push(Command::Move { comment: comment, target_x: x, target_y: y });
        self.monsters_attack();
        Ok(())
    }

    pub fn do_attack(&mut self, target_id: MonsterId, comment: Option<String>) -> (r: MoveResult<()>)
        requires
            old(self).wf(),
            old(self).has_headroom(),
            target_id < old(self).monsters@.len(),
        ensures
            final(self).wf(),
            !old(self).spec_can_attack(target_id as int) ==> r == Err::<(), MoveError>(
                MoveError::AttackOutOfRange,
            ) && *final(self) == *old(self),
            old(self).spec_can_attack(target_id as int) && old(self).monsters@[target_id as int].hp == 0
                ==> r == Err::<(), MoveError>(MoveError::MonsterIsDead) && *final(self) == *old(self),
            old(self).spec_can_attack(target_id as int) && old(self).monsters@[target_id as int].hp != 0
                ==> r == Ok::<(), MoveError>(()) && old(self).attacked(*final(self), target_id, comment),
    {
        if !self.can_attack(target_id) {
            return Err(MoveError::AttackOutOfRange);
        }
        if self.monsters[target_id].hp == 0 {
            return Err(MoveError::MonsterIsDead);
        }
        let ghost before = *self;
        let power = self.hero.power();
        assert(self.monsters@[target_id as int].wf(target_id as int));
        let outcome = self.monsters[target_id].take_damage(power);
        assert(self.monsters@ == before.monsters@.update(
            target_id as int,
            before.monsters@[target_id as int].spec_hit(power as int),
        ));
        if let Ok(Some(reward)) = outcome {
            self.hero.add_exp(reward.exp);
            let gained = self.gold_to_score(reward.gold);
            self.score = self.score + gained;
        }
        self.commands.push(Command::Attack { comment: comment, target_id: target_id });
        assert forall|j: int| 0 <= j < self.monsters@.len() implies #[trigger] self.monsters@[j].wf(j)
            && self.monsters@[j].monster == self.task.monsters@[j] by {
            assert(before.monsters@[j].wf(j));
        }
        proof {
            lemma_wf_from_parts(*self);
        }
        self.monsters_attack();
        Ok(())
    }

    /// Whether one more turn stays within `i64` (see `has_headroom`).
    pub fn check_headroom(&self) -> (r: bool)
        requires
            self.wf(),
        ensures
            r == self.has_headroom(),
    {
        let h = &self.hero;
        if !stat_fits(h.hero.base_speed, h.lvl, h.hero.level_speed_coeff)
            || !stat_fits(h.hero.base_power, h.lvl, h.hero.level_power_coeff)
            || !stat_fits(h.hero.base_range, h.lvl, h.hero.level_range_coeff) {
            return false;
        }
        let next: i128 = h.lvl as i128 + 1;
        proof {
            assert(0 <= next * (next - 1) <= 0x4000_0000_0000_0000_0000_0000_0000_0000) by (nonlinear_arith)
                requires
                    1 <= next <= 0x8000_0000_0000_0000,
            ;
        }
        let threshold_fits = match (next * (next - 1)).checked_mul(50) {
            None => false,
            Some(t) => t <= i64::MAX as i128 - 1000,
        };
        let limit: i128 = VALUE_LIMIT as i128;
        let max: i128 = i64::MAX as i128;
        threshold_fits && h.exp as i128 + limit <= max && self.score as i128 + limit <= max
            && h.fatigue as i128 + self.monsters.len() as i128 * limit <= max
            && (self.commands.len() as i128) < max
    }

    /// The commands issued so far, as a solution.
    pub fn solution(&self) -> (s: Solution)
        ensures
            s.moves@ == self.commands@,
    {
        Solution::from_commands(&self.commands)
    }
}

/// A policy that plays a game to its end and returns the commands it issued.
pub trait Solver {
    fn solve(&self, game_state: &mut GameState) -> Solution;
}

} // verus!
