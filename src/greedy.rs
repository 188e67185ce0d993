//! The greedy policy's decisions: which alive monster to pursue, given a
//! priority per monster, and whether to strike it or to approach it.
use vstd::prelude::*;

use crate::game::{GameState, MonsterId};

verus! {

/// What the policy does next.
#[derive(Clone, Copy, Debug, PartialEq, Eq, Structural)]
pub enum Action {
    /// The game is over, or no monster is left alive.
    Stop,
    /// The target is within range: attack it.
    Attack(MonsterId),
    /// The target is out of range: move toward it as far as speed allows.
    Approach(MonsterId),
}

impl GameState {
    pub open spec fn is_alive(self, i: int) -> bool {
        0 <= i < self.monsters@.len() && self.monsters@[i].hp != 0
    }

    pub open spec fn any_alive(self) -> bool {
        exists|i: int| self.is_alive(i)
    }

    /// Monster `i` is alive and has the highest priority among the alive
    /// monsters, and every alive monster before it has a lower one: ties go
    /// to the lowest id.
    pub open spec fn is_best_target(self, priorities: Seq<i64>, i: int) -> bool {
        &&& self.is_alive(i)
        &&& forall|j: int| #[trigger] self.is_alive(j) ==> priorities[j] <= priorities[i]
        &&& forall|j: int| 0 <= j < i && #[trigger] self.is_alive(j) ==> priorities[j] < priorities[i]
    }

    /// The action the policy takes in this state, given `priorities`.
    pub open spec fn spec_next_action(self, priorities: Seq<i64>) -> Action {
        if self.spec_is_game_over() || !self.any_alive() {
            Action::Stop
        } else {
            let i = choose|i: int| self.is_best_target(priorities, i);
            if self.spec_can_attack(i) {
                Action::Attack(i as MonsterId)
            } else {
                Action::Approach(i as MonsterId)
            }
        }
    }

    pub fn best_target(&self, priorities: &Vec<i64>) -> (r: Option<MonsterId>)
        requires
            priorities@.len() == self.monsters@.len(),
        ensures
            r.is_none() <==> !self.any_alive(),
            r matches Some(i) ==> self.is_best_target(priorities@, i as int),
    {
        let mut best: Option<MonsterId> = None;
        let mut i: usize = 0;
        while i < self.monsters.len()
            invariant
                priorities@.len() == self.monsters@.len(),
                i <= self.monsters@.len(),
                best.is_none() <==> forall|j: int| 0 <= j < i ==> !#[trigger] self.is_alive(j),
                best matches Some(b) ==> {
                    &&& b < i
                    &&& self.is_alive(b as int)
                    &&& forall|j: int| 0 <= j < i && #[trigger] self.is_alive(j) ==> priorities@[j] <= priorities@[b as int]
                    &&& forall|j: int| 0 <= j < b && #[trigger] self.is_alive(j) ==> priorities@[j] < priorities@[b as int]
                },
            decreases self.monsters@.len() - i,
        {
            if self.monsters[i].hp != 0 {
                match best {
                    None => {
                        best = Some(i);
                    },
                    Some(b) => {
                        if priorities[i] > priorities[b] {
                            best = Some(i);
                        }
                    },
                }
            }
            i = i + 1;
            proof {
                if best.is_some() {
                    assert(self.is_alive(best.unwrap() as int));
                }
            }
        }
        proof {
            if best.is_none() {
                assert forall|j: int| !#[trigger] self.is_alive(j) by {
                    if 0 <= j < i {
                    }
                }
            } else {
                let b = best.unwrap();
                assert(self.is_alive(b as int));
            }
        }
        best
    }

    /// The policy's next action: stop once the game is over or nothing is
    /// alive; otherwise take the best target and attack it when it is in
    /// range, approach it when it is not.
    pub fn next_action(&self, priorities: &Vec<i64>) -> (a: Action)
        requires
            self.wf(),
            self.hero.spec_range() <= i64::MAX,
            priorities@.len() == self.monsters@.len(),
        ensures
            a == self.spec_next_action(priorities@),
    {
        if self.is_game_over() {
            return Action::Stop;
        }
        match self.best_target(priorities) {
            None => Action::Stop,
            Some(i) => {
                proof {
                    let c = choose|c: int| self.is_best_target(priorities@, c);
                    lemma_best_target_unique(*self, priorities@, c, i as int);
                }
                if self.can_attack(i) {
                    Action::Attack(i)
                } else {
                    Action::Approach(i)
                }
            },
        }
    }
}

/// At most one monster is the best target.
pub proof fn lemma_best_target_unique(g: GameState, priorities: Seq<i64>, a: int, b: int)
    requires
        g.is_best_target(priorities, a),
        g.is_best_target(priorities, b),
    ensures
        a == b,
{
    if a < b {
        assert(g.is_alive(a));
    } else if b < a {
        assert(g.is_alive(b));
    }
}

} // verus!
