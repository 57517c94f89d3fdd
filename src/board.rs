//! The board: one peg of each label, and what makes a state of it legal.
use vstd::prelude::*;
use vstd::multiset::Multiset;
use crate::error::HanoiError;
use crate::peg::{Peg, PegLabel, tower};

verus! {

/// What the three pegs hold together: the multiset of their disc sizes.
pub open spec fn discs_on(a: Peg, b: Peg, c: Peg) -> Multiset<int> {
    a.sizes().to_multiset().add(b.sizes().to_multiset()).add(c.sizes().to_multiset())
}

/// A legal state of a game, whichever role each peg plays: every peg is well
/// formed (no disc on a smaller one), the pegs carry three different labels
/// and one game size, and each disc of the game lies on exactly one peg.
pub open spec fn valid_frame(a: Peg, b: Peg, c: Peg) -> bool {
    &&& a.wf()
    &&& b.wf()
    &&& c.wf()
    &&& a.capacity == b.capacity
    &&& b.capacity == c.capacity
    &&& a.label != b.label
    &&& b.label != c.label
    &&& a.label != c.label
    &&& discs_on(a, b, c) == tower(a.capacity as nat).to_multiset()
}

/// The three pegs of a game, labelled Left, Middle and Right.
#[derive(Debug)]
pub struct Board(pub Peg, pub Peg, pub Peg);

impl Board {
    /// A game of `capacity` discs, all on the left peg; refused unless
    /// `capacity` lies between 1 and `limit`.
    pub fn new(capacity: u8, limit: u8) -> (r: Result<Board, HanoiError>)
        ensures
            r is Ok <==> 1 <= capacity <= limit,
            r is Err ==> r->Err_0 == HanoiError::InvalidGameSize,
            r is Ok ==> ({
                let b = r->Ok_0;
                &&& b.0.label == PegLabel::Left
                &&& b.1.label == PegLabel::Middle
                &&& b.2.label == PegLabel::Right
                &&& b.0.capacity == capacity
                &&& b.0.sizes() == tower(capacity as nat)
                &&& b.1.stack@.len() == 0
                &&& b.2.stack@.len() == 0
                &&& valid_frame(b.0, b.1, b.2)
            }),
    {
        if capacity < 1 || capacity > limit {
            return Err(HanoiError::InvalidGameSize);
        }
        let left = Peg::new(PegLabel::Left, capacity);
        let middle = Peg::new_empty(PegLabel::Middle, capacity);
        let right = Peg::new_empty(PegLabel::Right, capacity);
        proof {
            broadcast use vstd::seq_lib::group_to_multiset_ensures;
            assert(middle.sizes() =~= Seq::<int>::empty());
            assert(right.sizes() =~= Seq::<int>::empty());
            assert(discs_on(left, middle, right) =~= tower(capacity as nat).to_multiset());
        }
        Ok(Board(left, middle, right))
    }
}

} // verus!
