//! Laws of the game that relate several operations or hold over every input.
use vstd::prelude::*;
use vstd::arithmetic::div_mod::lemma_div_is_ordered;

use crate::game::{
    GameState, HeroState, MonsterId, MonsterState, gold_score, lemma_threshold_grows, pressure,
    spec_exp_for_lvl, stat_at,
};
use crate::geom::Point;
use crate::greedy::lemma_best_target_unique;
use crate::task::VALUE_LIMIT;

verus! {

/// Experience that brings the hero exactly to the next level's threshold
/// raises the level by exactly one and leaves no experience over.
pub proof fn lemma_exact_threshold_levels_once(h: HeroState, gained: int)
    requires
        0 <= h.lvl < i64::MAX,
        h.exp + gained == spec_exp_for_lvl(h.lvl + 1),
    ensures
        h.spec_gain(gained).lvl == h.lvl + 1,
        h.spec_gain(gained).exp == 0,
{
}

/// A stat never shrinks as the level grows.
pub proof fn lemma_stat_grows_with_level(base: int, l1: int, l2: int, coeff: int)
    requires
        base >= 0,
        coeff >= 0,
        0 <= l1 <= l2,
    ensures
        base <= stat_at(base, l1, coeff) <= stat_at(base, l2, coeff),
{
    assert(0 <= base * l1 * coeff <= base * l2 * coeff) by (nonlinear_arith)
        requires
            base >= 0,
            coeff >= 0,
            0 <= l1 <= l2,
    ;
    lemma_div_is_ordered(0, base * l1 * coeff, 100);
    lemma_div_is_ordered(base * l1 * coeff, base * l2 * coeff, 100);
}

/// Passive damage is never negative while every attack value is not.
pub proof fn lemma_pressure_bounds(ms: Seq<MonsterState>, at: Point)
    requires
        forall|i: int| 0 <= i < ms.len() ==> 0 <= #[trigger] ms[i].monster.attack <= VALUE_LIMIT,
    ensures
        0 <= pressure(ms, at) <= ms.len() * VALUE_LIMIT,
    decreases ms.len(),
{
    if ms.len() > 0 {
        let rest = ms.drop_last();
        assert forall|i: int| 0 <= i < rest.len() implies 0 <= #[trigger] rest[i].monster.attack
            <= VALUE_LIMIT by {
            assert(rest[i] == ms[i]);
        }
        lemma_pressure_bounds(rest, at);
        assert(0 <= ms[ms.len() - 1].monster.attack <= VALUE_LIMIT);
    }
}

/// Killing a monster grants its reward once: the hero gains its experience,
/// the score its gold discounted by fatigue, and the monster is left in range
/// with no hit points and no reward, so that a further attack on it is
/// refused as `MonsterIsDead` and changes nothing.
pub proof fn lemma_kill_rewards_once(
    g: GameState,
    next: GameState,
    target_id: MonsterId,
    comment: Option<String>,
)
    requires
        g.wf(),
        g.has_headroom(),
        target_id < g.monsters@.len(),
        g.spec_can_attack(target_id as int),
        g.monsters@[target_id as int].hp != 0,
        g.attacked(next, target_id, comment),
        next.monsters@[target_id as int].hp == 0,
    ensures
        next.score == g.score + gold_score(
            g.monsters@[target_id as int].gold as int,
            g.hero.fatigue as int,
        ),
        next.hero.lvl == g.hero.spec_gain(g.monsters@[target_id as int].exp as int).lvl,
        next.hero.exp == g.hero.spec_gain(g.monsters@[target_id as int].exp as int).exp,
        next.monsters@[target_id as int].gold == 0,
        next.monsters@[target_id as int].exp == 0,
        next.spec_can_attack(target_id as int),
{
    let t = target_id as int;
    let h = g.hero;
    let gained = h.spec_gain(g.monsters@[t].exp as int);
    lemma_threshold_grows(h.lvl as int);
    assert(next.hero.lvl == gained.lvl);
    assert(gained.lvl >= h.lvl);
    lemma_stat_grows_with_level(
        h.hero.base_range as int,
        h.lvl as int,
        gained.lvl as int,
        h.hero.level_range_coeff as int,
    );
    let r1 = h.spec_range();
    let r2 = next.hero.spec_range();
    assert(0 <= r1 <= r2);
    assert(r1 * r1 <= r2 * r2) by (nonlinear_arith)
        requires
            0 <= r1 <= r2,
    ;
    assert(next.monsters@[t].p == g.monsters@[t].p);
    assert(next.hero.p == h.p);
}

/// A destination at exactly the hero's speed is within reach; one at a
/// distance of speed + 1 is not. These decide whether a move inside the
/// field succeeds or is refused as `MoveOutOfRange`.
pub proof fn lemma_move_reach_boundary(g: GameState, dest: Point)
    requires
        g.wf(),
    ensures
        g.hero.p.spec_dst_sqr(dest) == g.hero.spec_speed() * g.hero.spec_speed() ==> g.hero.p.spec_in_radius(
            dest,
            g.hero.spec_speed(),
        ),
        g.hero.p.spec_dst_sqr(dest) == (g.hero.spec_speed() + 1) * (g.hero.spec_speed() + 1)
            ==> !g.hero.p.spec_in_radius(dest, g.hero.spec_speed()),
{
    let h = g.hero;
    lemma_stat_grows_with_level(
        h.hero.base_speed as int,
        h.lvl as int,
        h.lvl as int,
        h.hero.level_speed_coeff as int,
    );
    let s = h.spec_speed();
    assert(s * s < (s + 1) * (s + 1)) by (nonlinear_arith)
        requires
            s >= 0,
    ;
}

/// A successful move never lowers fatigue.
pub proof fn lemma_move_keeps_fatigue(g: GameState, next: GameState, x: i64, y: i64, comment: Option<String>)
    requires
        g.wf(),
        g.has_headroom(),
        g.moved(next, x, y, comment),
    ensures
        next.hero.fatigue >= g.hero.fatigue,
{
    assert forall|i: int| 0 <= i < g.monsters@.len() implies #[trigger] g.monsters@[i].monster
        == g.task.monsters@[i] by {
        assert(g.monsters@[i].wf(i));
    }
    lemma_monster_attacks_bounded(g, g.monsters@, Point { x, y });
}

/// A successful attack never lowers fatigue.
pub proof fn lemma_attack_keeps_fatigue(
    g: GameState,
    next: GameState,
    target_id: MonsterId,
    comment: Option<String>,
)
    requires
        g.wf(),
        g.has_headroom(),
        target_id < g.monsters@.len(),
        g.attacked(next, target_id, comment),
    ensures
        next.hero.fatigue >= g.hero.fatigue,
{
    let t = target_id as int;
    let m = g.monsters@[t];
    let ms = g.monsters@.update(t, m.spec_hit(g.hero.spec_power()));
    assert forall|i: int| 0 <= i < ms.len() implies ms[i].monster == g.task.monsters@[i] by {
        assert(g.monsters@[i].wf(i));
    }
    lemma_monster_attacks_bounded(g, ms, g.hero.p);
}

/// `next` follows `g` by one command: a successful move or attack, or a
/// rejected command that left the values as they were.
pub open spec fn is_turn(g: GameState, next: GameState) -> bool {
    ||| g.agrees(next)
    ||| exists|x: i64, y: i64, c: Option<String>| #[trigger] g.moved(next, x, y, c)
    ||| exists|t: MonsterId, c: Option<String>|
        t < g.monsters@.len() && #[trigger] g.attacked(next, t, c)
}

/// Over any run of commands, fatigue never decreases.
pub proof fn lemma_fatigue_never_decreases(run: Seq<GameState>)
    requires
        forall|i: int| 0 <= i < run.len() ==> (#[trigger] run[i]).wf() && run[i].has_headroom(),
        forall|i: int| 0 <= i < run.len() - 1 ==> is_turn(#[trigger] run[i], run[i + 1]),
    ensures
        forall|i: int, j: int| 0 <= i <= j < run.len() ==> #[trigger] run[i].hero.fatigue <= #[trigger] run[j].hero.fatigue,
    decreases run.len(),
{
    if run.len() > 1 {
        let prefix = run.drop_last();
        assert forall|i: int| 0 <= i < prefix.len() - 1 implies is_turn(#[trigger] prefix[i], prefix[i + 1]) by {
            assert(prefix[i] == run[i] && prefix[i + 1] == run[i + 1]);
        }
        lemma_fatigue_never_decreases(prefix);
        let k = run.len() - 2;
        let g = run[k];
        let next = run[k + 1];
        assert(is_turn(g, next));
        if exists|x: i64, y: i64, c: Option<String>| #[trigger] g.moved(next, x, y, c) {
            let (x, y, c) = choose|x: i64, y: i64, c: Option<String>| #[trigger] g.moved(next, x, y, c);
            lemma_move_keeps_fatigue(g, next, x, y, c);
        } else if exists|t: MonsterId, c: Option<String>|
            t < g.monsters@.len() && #[trigger] g.attacked(next, t, c) {
            let (t, c) = choose|t: MonsterId, c: Option<String>|
                t < g.monsters@.len() && #[trigger] g.attacked(next, t, c);
            lemma_attack_keeps_fatigue(g, next, t, c);
        }
        assert forall|i: int, j: int| 0 <= i <= j < run.len() implies #[trigger] run[i].hero.fatigue
            <= #[trigger] run[j].hero.fatigue by {
            if j < run.len() - 1 {
                assert(prefix[i] == run[i] && prefix[j] == run[j]);
            } else if i < j {
                assert(prefix[i] == run[i] && prefix[k] == run[k]);
            }
        }
    }
}

proof fn lemma_monster_attacks_bounded(g: GameState, ms: Seq<MonsterState>, at: Point)
    requires
        g.wf(),
        g.has_headroom(),
        ms.len() == g.monsters@.len(),
        forall|i: int| 0 <= i < ms.len() ==> #[trigger] ms[i].monster == g.task.monsters@[i],
    ensures
        0 <= pressure(ms, at),
        g.hero.fatigue + pressure(ms, at) <= i64::MAX,
{
    assert forall|i: int| 0 <= i < ms.len() implies 0 <= #[trigger] ms[i].monster.attack
        <= VALUE_LIMIT by {
        assert(ms[i].monster == g.task.monsters@[i]);
        assert(g.task.monsters@[i].wf());
    }
    lemma_pressure_bounds(ms, at);
}

/// Two games that `task` starts hold the same values.
pub proof fn lemma_fresh_games_agree(g1: GameState, g2: GameState, task: crate::task::Task)
    requires
        g1.fresh_from(task),
        g2.fresh_from(task),
    ensures
        g1.agrees(g2),
{
    assert forall|i: int| 0 <= i < g1.monsters@.len() implies #[trigger] g1.monsters@[i]
        == g2.monsters@[i] by {
        assert(g2.monsters@[i] == MonsterState::spawn(task.monsters@[i], i as MonsterId));
    }
    assert(g1.monsters@ =~= g2.monsters@);
    assert(g1.commands@ =~= g2.commands@);
}

/// Games that hold the same values take the same action for the same
/// priorities.
pub proof fn lemma_agreeing_games_act_alike(g1: GameState, g2: GameState, priorities: Seq<i64>)
    requires
        g1.agrees(g2),
    ensures
        g1.spec_next_action(priorities) == g2.spec_next_action(priorities),
{
    assert forall|j: int| #[trigger] g1.is_alive(j) == g2.is_alive(j) by {}
    assert forall|i: int| g1.is_best_target(priorities, i) implies #[trigger] g2.is_best_target(
        priorities,
        i,
    ) by {
        assert forall|j: int| #[trigger] g2.is_alive(j) implies priorities[j] <= priorities[i] by {
            assert(g1.is_alive(j));
        }
        assert forall|j: int| 0 <= j < i && #[trigger] g2.is_alive(j) implies priorities[j]
            < priorities[i] by {
            assert(g1.is_alive(j));
        }
    }
    assert forall|i: int| g2.is_best_target(priorities, i) implies #[trigger] g1.is_best_target(
        priorities,
        i,
    ) by {
        assert forall|j: int| #[trigger] g1.is_alive(j) implies priorities[j] <= priorities[i] by {
            assert(g2.is_alive(j));
        }
        assert forall|j: int| 0 <= j < i && #[trigger] g1.is_alive(j) implies priorities[j]
            < priorities[i] by {
            assert(g2.is_alive(j));
        }
    }
    if g1.any_alive() {
        let w = choose|i: int| g1.is_alive(i);
        assert(g2.is_alive(w));
    }
    if g2.any_alive() {
        let w = choose|i: int| g2.is_alive(i);
        assert(g1.is_alive(w));
    }
    if !g1.spec_is_game_over() && g1.any_alive() {
        lemma_best_exists(g1, priorities);
        let a = choose|i: int| g1.is_best_target(priorities, i);
        assert(g2.is_best_target(priorities, a));
        let b = choose|i: int| g2.is_best_target(priorities, i);
        lemma_best_target_unique(g1, priorities, a, b);
    }
}

/// The same move takes games that hold the same values to games that again
/// hold the same values.
pub proof fn lemma_agreeing_games_move_alike(
    g1: GameState,
    g2: GameState,
    n1: GameState,
    n2: GameState,
    x: i64,
    y: i64,
    comment: Option<String>,
)
    requires
        g1.agrees(g2),
        g1.moved(n1, x, y, comment),
        g2.moved(n2, x, y, comment),
    ensures
        n1.agrees(n2),
{
}

/// The same attack takes games that hold the same values to games that
/// again hold the same values.
pub proof fn lemma_agreeing_games_attack_alike(
    g1: GameState,
    g2: GameState,
    n1: GameState,
    n2: GameState,
    target_id: MonsterId,
    comment: Option<String>,
)
    requires
        g1.agrees(g2),
        g1.attacked(n1, target_id, comment),
        g2.attacked(n2, target_id, comment),
    ensures
        n1.agrees(n2),
{
}

/// Where some monster is alive, a best target exists.
pub proof fn lemma_best_exists(g: GameState, priorities: Seq<i64>)
    requires
        g.any_alive(),
    ensures
        exists|i: int| g.is_best_target(priorities, i),
{
    let w = choose|i: int| g.is_alive(i);
    let b = lemma_best_in_prefix(g, priorities, g.monsters@.len() as int, w);
    assert(g.is_best_target(priorities, b));
}

proof fn lemma_best_in_prefix(g: GameState, priorities: Seq<i64>, n: int, w: int) -> (b: int)
    requires
        0 <= w < n <= g.monsters@.len(),
        g.is_alive(w),
    ensures
        0 <= b < n,
        g.is_alive(b),
        forall|j: int| 0 <= j < n && #[trigger] g.is_alive(j) ==> priorities[j] <= priorities[b],
        forall|j: int| 0 <= j < b && #[trigger] g.is_alive(j) ==> priorities[j] < priorities[b],
    decreases n,
{
    let last = n - 1;
    if w == last {
        if exists|j: int| 0 <= j < last && g.is_alive(j) {
            let v = choose|j: int| 0 <= j < last && g.is_alive(j);
            let c = lemma_best_in_prefix(g, priorities, last, v);
            if priorities[last] > priorities[c] {
                last
            } else {
                c
            }
        } else {
            last
        }
    } else {
        let c = lemma_best_in_prefix(g, priorities, last, w);
        if g.is_alive(last) && priorities[last] > priorities[c] {
            last
        } else {
            c
        }
    }
}

} // verus!
