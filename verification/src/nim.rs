//! A take-away game: two participants alternately remove one, two or three
//! chips from a pile, and whoever takes the last chip wins.

use vstd::prelude::*;
use crate::state::{IllegalMove, State, REWARD_UNIT};

verus! {

/// The legal actions of a pile of `chips` chips: take 1, 2 or 3, but never
/// more than remain.
pub open spec fn nim_actions(chips: u32) -> Seq<u32> {
    if chips == 0 {
        seq![]
    } else if chips == 1 {
        seq![1u32]
    } else if chips == 2 {
        seq![1u32, 2u32]
    } else {
        seq![1u32, 2u32, 3u32]
    }
}

/// The printable name of a take-away move.
pub open spec fn nim_label(a: u32) -> Seq<char> {
    if a == 1 {
        "One"@
    } else if a == 2 {
        "Two"@
    } else if a == 3 {
        "Three"@
    } else {
        "Unknown"@
    }
}

/// A pile of chips, and the participant (1 or 2) who moved last.
#[derive(Debug, Clone, Copy)]
pub struct NimState {
    player_just_moved: usize,
    chips: u32,
}

#[derive(Debug)]
enum NimAction {
    One,
    Two,
    Three,
}

impl NimAction {
    fn from_u32(x: u32) -> (r: Option<NimAction>)
        ensures
            r is Some <==> 1 <= x <= 3,
            x == 1 ==> r == Some(NimAction::One),
            x == 2 ==> r == Some(NimAction::Two),
            x == 3 ==> r == Some(NimAction::Three),
    {
        match x {
            1 => Some(NimAction::One),
            2 => Some(NimAction::Two),
            3 => Some(NimAction::Three),
            _ => None,
        }
    }
}

impl NimState {
    /// How many chips remain on the pile.
    pub closed spec fn spec_chips(&self) -> u32 {
        self.chips
    }

    pub fn new(chips: u32) -> (r: NimState)
        ensures
            r.inv(),
            r.spec_chips() == chips,
            r.spec_actions() == nim_actions(chips),
            r.moves_left() == chips as nat,
            r.spec_player_just_moved() == 2,
    {
        NimState { player_just_moved: 2, chips }
    }
}

impl State for NimState {
    closed spec fn inv(&self) -> bool {
        self.player_just_moved == 1 || self.player_just_moved == 2
    }

    closed spec fn spec_player_just_moved(&self) -> usize {
        self.player_just_moved
    }

    open spec fn spec_actions(&self) -> Seq<u32> {
        nim_actions(self.spec_chips())
    }

    open spec fn moves_left(&self) -> nat {
        self.spec_chips() as nat
    }

    fn clone_state(&self) -> (r: Self) {
        *self
    }

    fn get_player_just_moved(&self) -> (p: usize) {
        self.player_just_moved
    }

    fn get_actions(&self) -> (r: Vec<u32>) {
        let mut actions: Vec<u32> = Vec::new();
        if self.chips >= 1 {
            actions.push(1);
        }
        if self.chips >= 2 {
            actions.push(2);
        }
        if self.chips >= 3 {
            actions.push(3);
        }
        proof {
            assert(actions@ =~= self.spec_actions());
        }
        actions
    }

    fn get_action_strings(&self) -> (r: Vec<String>)
        ensures
            forall|i: int| 0 <= i < r@.len()
                ==> (#[trigger] r@[i])@ == nim_label(self.spec_actions()[i]),
    {
        let actions = self.get_actions();
        let mut strings: Vec<String> = Vec::new();
        let mut k: usize = 0;
        while k < actions.len()
            invariant
                strings@.len() == k,
                k <= actions@.len(),
                actions@ == self.spec_actions(),
                forall|i: int| 0 <= i < k
                    ==> (#[trigger] strings@[i])@ == nim_label(actions@[i]),
            decreases actions@.len() - k,
        {
            let a = actions[k];
            proof {
                assert(1 <= self.spec_actions()[k as int] <= 3);
            }
            let label = match NimAction::from_u32(a) {
                Some(NimAction::One) => "One",
                Some(NimAction::Two) => "Two",
                Some(NimAction::Three) => "Three",
                None => "Unknown",
            };
            strings.push(label.to_owned());
            k = k + 1;
        }
        strings
    }

    fn do_action(&mut self, action: u32) -> (r: Result<(), IllegalMove>)
        ensures
            r is Ok ==> final(self).spec_chips() == old(self).spec_chips() - action,
            r is Ok ==> final(self).spec_player_just_moved()
                == 3 - old(self).spec_player_just_moved(),
    {
        if 1 <= action && action <= 3 && action <= self.chips {
            proof {
                let acts = old(self).spec_actions();
                assert(acts[action - 1] == action);
                assert(acts.contains(action));
            }
            self.chips = self.chips - action;
            self.player_just_moved = 3 - self.player_just_moved;
            Ok(())
        } else {
            proof {
                let acts = old(self).spec_actions();
                assert(forall|i: int| 0 <= i < acts.len() ==> 1 <= #[trigger] acts[i] <= 3
                    && acts[i] <= old(self).spec_chips());
                if acts.contains(action) {
                    let i = choose|i: int| 0 <= i < acts.len() && acts[i] == action;
                    assert(false);
                }
            }
            Err(IllegalMove { action })
        }
    }

    fn get_result(&self, player: usize) -> (r: u64)
        ensures
            r == (if player == self.spec_player_just_moved() {
                REWARD_UNIT
            } else {
                0u64
            }),
    {
        if self.player_just_moved == player {
            REWARD_UNIT
        } else {
            0
        }
    }
}

} // verus!
