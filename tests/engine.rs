use hero_sim::game::{GameState, HeroState, MoveError};
use hero_sim::geom::Point;
use hero_sim::greedy::Action;
use hero_sim::task::{Command, Hero, Monster, Task};

fn hero(speed: i64, power: i64, range: i64, coeffs: (i64, i64, i64)) -> Hero {
    Hero {
        base_speed: speed,
        base_power: power,
        base_range: range,
        level_speed_coeff: coeffs.0,
        level_power_coeff: coeffs.1,
        level_range_coeff: coeffs.2,
    }
}

fn monster(x: i64, y: i64, hp: i64, gold: i64, exp: i64, range: i64, attack: i64) -> Monster {
    Monster { x, y, hp, gold, exp, range, attack }
}

fn task(h: Hero, monsters: Vec<Monster>, num_turns: i64) -> Task {
    Task { hero: h, start_x: 0, start_y: 0, width: 100, height: 100, num_turns, monsters }
}

fn hero_state(h: Hero, lvl: i64, exp: i64) -> HeroState {
    HeroState { hero: h, p: Point::new(0, 0), lvl, exp, fatigue: 0 }
}

#[test]
fn exp_for_lvl_values() {
    assert_eq!(HeroState::exp_for_lvl(0), 1000);
    assert_eq!(HeroState::exp_for_lvl(1), 1000);
    assert_eq!(HeroState::exp_for_lvl(2), 1100);
    assert_eq!(HeroState::exp_for_lvl(3), 1300);
    assert_eq!(HeroState::exp_for_lvl(10), 1000 + 10 * 9 * 50);
}

#[test]
fn add_exp_exact_threshold_levels_once() {
    let mut h = hero_state(hero(1, 1, 1, (0, 0, 0)), 0, 0);
    h.add_exp(1000);
    assert_eq!(h.lvl, 1);
    assert_eq!(h.exp, 0);
    h.add_exp(1100);
    assert_eq!(h.lvl, 2);
    assert_eq!(h.exp, 0);
}

#[test]
fn add_exp_below_and_over_threshold() {
    let mut h = hero_state(hero(1, 1, 1, (0, 0, 0)), 0, 0);
    h.add_exp(999);
    assert_eq!((h.lvl, h.exp), (0, 999));
    assert_eq!(h.exp_before_next_lvl(), 1);
    h.add_exp(51);
    assert_eq!((h.lvl, h.exp), (1, 50));
    assert_eq!(h.exp_before_next_lvl(), 1050);
}

#[test]
fn add_exp_levels_at_most_once_per_call() {
    let mut h = hero_state(hero(1, 1, 1, (0, 0, 0)), 0, 0);
    h.add_exp(5000);
    assert_eq!((h.lvl, h.exp), (1, 4000));
}

#[test]
fn stats_grow_with_level_truncating() {
    let h = hero_state(hero(10, 7, 33, (15, 50, 3)), 3, 0);
    assert_eq!(h.speed(), 10 + 10 * 3 * 15 / 100);
    assert_eq!(h.speed(), 14);
    assert_eq!(h.power(), 17);
    assert_eq!(h.range(), 35);
    let h0 = hero_state(hero(10, 7, 33, (15, 50, 3)), 0, 0);
    assert_eq!((h0.speed(), h0.power(), h0.range()), (10, 7, 33));
}

#[test]
fn distance_and_radius() {
    let a = Point::new(1, 2);
    let b = Point::new(4, 6);
    assert_eq!(a.dst_sqr(&b), 25);
    assert_eq!(b.dst_sqr(&a), 25);
    assert!(a.is_in_radius_of(&b, 5));
    assert!(!a.is_in_radius_of(&b, 4));
    assert!(a.is_in_radius_of(&a, 0));
    assert!(a.is_in_radius_of(&a, 7));
}

#[test]
fn step_toward_snaps_within_radius() {
    let from = Point::new(0, 0);
    let to = Point::new(3, 4);
    let far = Point::new(1, 1);
    assert_eq!(from.in_radius_with_direction(&to, 5, far), to);
    assert_eq!(from.in_radius_with_direction(&to, 9, far), to);
    assert_eq!(from.in_radius_with_direction(&to, 4, far), far);
}

#[test]
fn new_game_starts_fresh() {
    let t = task(hero(5, 10, 3, (0, 0, 0)), vec![monster(10, 10, 20, 5, 7, 0, 0), monster(1, 1, 0, 5, 7, 0, 0)], 10);
    let g = GameState::new(&t);
    assert_eq!(g.score, 0);
    assert_eq!((g.hero.p, g.hero.lvl, g.hero.exp, g.hero.fatigue), (Point::new(0, 0), 0, 0, 0));
    assert_eq!(g.monsters.len(), 2);
    assert_eq!(g.monsters[0].id, 0);
    assert_eq!(g.monsters[1].id, 1);
    assert_eq!(g.monsters[0].p, Point::new(10, 10));
    assert_eq!((g.monsters[0].hp, g.monsters[0].gold, g.monsters[0].exp), (20, 5, 7));
    assert_eq!(g.steps(), 0);
    assert!(!g.is_game_over());
    assert_eq!(g.alive_monsters(), vec![0]);
    assert!(g.check_headroom());
}

#[test]
fn move_out_of_field() {
    let t = task(hero(500, 10, 3, (0, 0, 0)), vec![], 10);
    let mut g = GameState::new(&t);
    assert_eq!(g.do_move(-1, 0, None), Err(MoveError::OutOfField));
    assert_eq!(g.do_move(0, 101, None), Err(MoveError::OutOfField));
    assert_eq!(g.do_move(101, 0, None), Err(MoveError::OutOfField));
    assert_eq!(g.steps(), 0);
    assert_eq!(g.hero.p, Point::new(0, 0));
}

#[test]
fn move_at_exact_speed_succeeds_and_one_more_fails() {
    let t = task(hero(5, 10, 3, (0, 0, 0)), vec![], 10);
    let mut g = GameState::new(&t);
    assert_eq!(g.do_move(0, 6, None), Err(MoveError::MoveOutOfRange));
    assert_eq!(g.steps(), 0);
    assert_eq!(g.do_move(3, 4, Some("hop".to_string())), Ok(()));
    assert_eq!(g.hero.p, Point::new(3, 4));
    assert_eq!(g.steps(), 1);
    match &g.commands[0] {
        Command::Move { comment, target_x, target_y } => {
            assert_eq!(comment.as_deref(), Some("hop"));
            assert_eq!((*target_x, *target_y), (3, 4));
        }
        _ => panic!("expected a move"),
    }
}

#[test]
fn passive_attacks_add_fatigue() {
    let monsters = vec![
        monster(0, 10, 5, 1, 1, 5, 7),
        monster(0, 12, 5, 1, 1, 1, 100),
        monster(0, 9, 0, 1, 1, 5, 1000),
    ];
    let t = task(hero(10, 1, 1, (0, 0, 0)), monsters, 10);
    let mut g = GameState::new(&t);
    g.do_move(0, 5, None).unwrap();
    assert_eq!(g.hero.fatigue, 7);
    g.do_move(0, 5, None).unwrap();
    assert_eq!(g.hero.fatigue, 14);
    g.monsters_attack();
    assert_eq!(g.hero.fatigue, 21);
}

#[test]
fn attack_out_of_range() {
    let t = task(hero(5, 10, 3, (0, 0, 0)), vec![monster(3, 1, 20, 5, 7, 0, 0)], 10);
    let mut g = GameState::new(&t);
    assert!(!g.can_attack(0));
    assert_eq!(g.do_attack(0, None), Err(MoveError::AttackOutOfRange));
    assert_eq!(g.monsters[0].hp, 20);
    assert_eq!(g.steps(), 0);
}

#[test]
fn three_attacks_kill_and_fourth_fails() {
    let t = task(hero(5, 10, 3, (0, 0, 0)), vec![monster(3, 0, 25, 40, 300, 0, 0)], 10);
    let mut g = GameState::new(&t);
    assert!(g.can_attack(0));
    assert_eq!(g.do_attack(0, None), Ok(()));
    assert_eq!(g.monsters[0].hp, 15);
    assert_eq!(g.score, 0);
    assert_eq!(g.do_attack(0, None), Ok(()));
    assert_eq!(g.monsters[0].hp, 5);
    assert_eq!(g.score, 0);
    assert_eq!(g.do_attack(0, None), Ok(()));
    assert_eq!(g.monsters[0].hp, 0);
    assert_eq!((g.monsters[0].gold, g.monsters[0].exp), (0, 0));
    assert_eq!(g.score, 40);
    assert_eq!(g.hero.exp, 300);
    assert_eq!(g.do_attack(0, None), Err(MoveError::MonsterIsDead));
    assert_eq!(g.score, 40);
    assert_eq!(g.hero.exp, 300);
    assert_eq!(g.steps(), 3);
    assert!(g.alive_monsters().is_empty());
}

#[test]
fn fatigue_discounts_gold() {
    let monsters = vec![monster(0, 0, 10, 10, 0, 1000, 1000)];
    let t = task(hero(5, 5, 3, (0, 0, 0)), monsters, 10);
    let mut g = GameState::new(&t);
    g.do_attack(0, None).unwrap();
    assert_eq!(g.hero.fatigue, 1000);
    g.do_attack(0, None).unwrap();
    assert_eq!(g.score, 10 * 1000 / 2000);
    assert_eq!(g.score, 5);
    assert_eq!(g.hero.fatigue, 1000);
}

#[test]
fn kill_levels_up_the_hero() {
    let t = task(hero(5, 100, 3, (0, 100, 0)), vec![monster(1, 1, 10, 0, 1000, 0, 0), monster(2, 2, 150, 0, 0, 0, 0)], 10);
    let mut g = GameState::new(&t);
    g.do_attack(0, None).unwrap();
    assert_eq!((g.hero.lvl, g.hero.exp), (1, 0));
    assert_eq!(g.hero.power(), 200);
    g.do_attack(1, None).unwrap();
    assert_eq!(g.monsters[1].hp, 0);
}

#[test]
fn zero_turn_budget_is_over_at_once() {
    let t = task(hero(5, 10, 3, (0, 0, 0)), vec![monster(3, 0, 25, 40, 300, 0, 0)], 0);
    let g = GameState::new(&t);
    assert!(g.is_game_over());
    assert_eq!(g.next_action(&vec![1]), Action::Stop);
    assert!(g.solution().moves.is_empty());
}

#[test]
fn game_over_after_budget() {
    let t = task(hero(5, 10, 3, (0, 0, 0)), vec![], 2);
    let mut g = GameState::new(&t);
    g.do_move(1, 0, None).unwrap();
    assert!(!g.is_game_over());
    g.do_move(2, 0, None).unwrap();
    assert!(g.is_game_over());
    assert_eq!(g.solution().moves.len(), 2);
}

#[test]
fn best_target_prefers_highest_then_lowest_id() {
    let monsters = vec![
        monster(50, 50, 10, 1, 1, 0, 0),
        monster(50, 50, 0, 1, 1, 0, 0),
        monster(50, 50, 10, 1, 1, 0, 0),
        monster(50, 50, 10, 1, 1, 0, 0),
    ];
    let t = task(hero(5, 10, 3, (0, 0, 0)), monsters, 10);
    let g = GameState::new(&t);
    assert_eq!(g.best_target(&vec![3, 100, 7, 7]), Some(2));
    assert_eq!(g.best_target(&vec![9, 100, 7, 7]), Some(0));
    assert_eq!(g.next_action(&vec![3, 100, 7, 7]), Action::Approach(2));
}

#[test]
fn next_action_attacks_in_range_and_stops_when_all_dead() {
    let t = task(hero(5, 100, 3, (0, 0, 0)), vec![monster(2, 0, 10, 1, 1, 0, 0)], 10);
    let mut g = GameState::new(&t);
    assert_eq!(g.next_action(&vec![1]), Action::Attack(0));
    g.do_attack(0, None).unwrap();
    assert_eq!(g.best_target(&vec![1]), None);
    assert_eq!(g.next_action(&vec![1]), Action::Stop);
}

#[test]
fn headroom_fails_for_huge_growth() {
    let t = task(hero(i64::MAX / 2, 10, 3, (0, 0, 0)), vec![], 10);
    let mut g = GameState::new(&t);
    assert!(g.check_headroom());
    g.hero.lvl = 1;
    g.hero.hero.level_speed_coeff = 100;
    g.task.hero.level_speed_coeff = 100;
    assert!(g.check_headroom());
    assert_eq!(g.hero.speed(), i64::MAX - 1);
    g.hero.hero.level_speed_coeff = 200;
    g.task.hero.level_speed_coeff = 200;
    assert!(!g.check_headroom());
}

fn interpolate(from: Point, to: Point, r: i64) -> Point {
    let dx = to.x - from.x;
    let dy = to.y - from.y;
    let t = r as f32 / ((dx * dx + dy * dy) as f32).sqrt();
    let x = (from.x as f32) * (1f32 - t) + (to.x as f32) * t;
    let y = (from.y as f32) * (1f32 - t) + (to.y as f32) * t;
    Point::new((x - from.x as f32).trunc() as i64 + from.x, (y - from.y as f32).trunc() as i64 + from.y)
}

fn play(t: &Task) -> Vec<String> {
    let mut g = GameState::new(t);
    loop {
        let priorities: Vec<i64> = g.monsters.iter().map(|m| m.gold * 100 - m.p.dst_sqr(&g.hero.p)).collect();
        match g.next_action(&priorities) {
            Action::Stop => break,
            Action::Attack(id) => g.do_attack(id, None).unwrap(),
            Action::Approach(id) => {
                let target = g.monsters[id].p;
                let speed = g.hero.speed();
                let far = interpolate(g.hero.p, target, speed);
                let next = g.hero.p.in_radius_with_direction(&target, speed, far);
                g.do_move(next.x, next.y, None).unwrap()
            }
        }
    }
    g.solution().moves.iter().map(|c| format!("{:?}", c)).collect()
}

#[test]
fn two_runs_from_one_task_agree() {
    let monsters = vec![
        monster(40, 30, 30, 10, 500, 5, 2),
        monster(90, 10, 15, 25, 700, 3, 1),
        monster(10, 80, 50, 40, 900, 10, 3),
    ];
    let t = Task { hero: hero(12, 8, 4, (10, 20, 5)), start_x: 0, start_y: 0, width: 100, height: 100, num_turns: 60, monsters };
    let first = play(&t);
    let second = play(&t);
    assert!(!first.is_empty());
    assert_eq!(first, second);
}

#[test]
fn duplicate_copies_commands() {
    let c = Command::Attack { comment: Some("x".to_string()), target_id: 3 };
    let d = c.duplicate();
    assert_eq!(format!("{:?}", c), format!("{:?}", d));
}
