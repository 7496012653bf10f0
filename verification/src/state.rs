//! The capability contract that the search engine requires of a game
//! position: legal actions, in-place application of an action, the identity
//! of the last mover, and a terminal result.

use vstd::prelude::*;

verus! {

/// Rewards are fixed-point fractions of one whole win: a terminal result is
/// an integer number of thousandths, between `0` (a loss) and `REWARD_UNIT`
/// (a win), from the asked participant's perspective.
pub const REWARD_UNIT: u64 = 1000;

/// The fatal signal raised when an action is applied to a position whose
/// legal-action set does not contain it. This is a defect in action
/// bookkeeping, never a game outcome, and is not recovered from.
#[derive(Debug, Clone, Copy, PartialEq, Eq, Structural)]
pub struct IllegalMove {
    /// The offending action identifier.
    pub action: u32,
}

/// A sequential, deterministic, perfect-information game position.
///
/// Actions are small integers, unique within a position. A position is
/// terminal exactly when its legal-action set is empty, and only then is a
/// result defined.
pub trait State: Sized {
    /// The abstraction's well-formedness: every operation preserves it.
    spec fn inv(&self) -> bool;

    /// The legal actions of this position, as a mathematical sequence.
    spec fn spec_actions(&self) -> Seq<u32>;

    /// An upper bound on how many more moves can be applied before the game
    /// ends; every legal move strictly decreases it, so play terminates.
    spec fn moves_left(&self) -> nat;

    /// An independent copy of the position, abstractly indistinguishable
    /// from the original.
    fn clone_state(&self) -> (r: Self)
        requires
            self.inv(),
        ensures
            r.inv(),
            r.spec_actions() == self.spec_actions(),
            r.moves_left() == self.moves_left(),
    ;

    /// The participant who made the move that produced this position, as
    /// a mathematical value.
    spec fn spec_player_just_moved(&self) -> usize;

    /// The participant who made the move that produced this position.
    fn get_player_just_moved(&self) -> (p: usize)
        requires
            self.inv(),
        ensures
            p == self.spec_player_just_moved(),
    ;

    /// The legal action identifiers of this position; empty iff terminal.
    fn get_actions(&self) -> (r: Vec<u32>)
        requires
            self.inv(),
        ensures
            r@ == self.spec_actions(),
    ;

    /// Human-readable labels, one per legal action, in the same order.
    fn get_action_strings(&self) -> (r: Vec<String>)
        requires
            self.inv(),
        ensures
            r@.len() == self.spec_actions().len(),
    ;

    /// Applies `action` to this position in place. Succeeds exactly when the
    /// action is currently legal; an illegal action leaves the position
    /// untouched and reports the defect.
    fn do_action(&mut self, action: u32) -> (r: Result<(), IllegalMove>)
        requires
            old(self).inv(),
        ensures
            final(self).inv(),
            r is Ok <==> old(self).spec_actions().contains(action),
            r is Ok ==> final(self).moves_left() < old(self).moves_left(),
            r is Err ==> *final(self) == *old(self) && r->Err_0.action == action,
    ;

    /// The terminal result in fixed-point thousandths of a win, from
    /// `player`'s perspective. Defined only once no legal actions remain.
    fn get_result(&self, player: usize) -> (r: u64)
        requires
            self.inv(),
            self.spec_actions().len() == 0,
        ensures
            r <= REWARD_UNIT,
    ;
}

} // verus!
