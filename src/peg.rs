//! Pegs: labelled stacks of discs, largest at the bottom.
use vstd::prelude::*;
use crate::disc::{Config, Disc, cell_width, disc_cell, largest_disc, lemma_cell_widths, slot_cell};
use crate::error::HanoiError;

verus! {

/// The three pegs of a board, in the order they are shown from left to right.
#[derive(Debug, Clone, Copy, PartialEq, Eq, Structural)]
pub enum PegLabel {
    Left,
    Middle,
    Right,
}

impl PegLabel {
    /// Column of the label on screen.
    pub open spec fn spec_rank(self) -> nat {
        match self {
            PegLabel::Left => 0,
            PegLabel::Middle => 1,
            PegLabel::Right => 2,
        }
    }

    /// Column of the label on screen: Left 0, Middle 1, Right 2.
    pub fn rank(&self) -> (r: u8)
        ensures
            r == self.spec_rank(),
    {
        match self {
            PegLabel::Left => 0,
            PegLabel::Middle => 1,
            PegLabel::Right => 2,
        }
    }
}

/// Sizes `n - 1` down to 0: a full tower listed from the bottom up.
pub open spec fn tower(n: nat) -> Seq<int> {
    Seq::new(n, |i: int| n - 1 - i)
}

/// Each value is larger than every value after it.
pub open spec fn descending(s: Seq<int>) -> bool {
    forall|i: int, j: int| 0 <= i < j < s.len() ==> s[i] > s[j]
}

/// A peg: its label, the number of discs of its game, and its discs from the
/// bottom up (the last one is the top).
#[derive(Debug)]
pub struct Peg {
    pub label: PegLabel,
    pub capacity: u8,
    pub stack: Vec<Disc>,
}

impl Peg {
    /// Sizes of the discs from the bottom up.
    pub open spec fn sizes(&self) -> Seq<int> {
        self.stack@.map_values(|d: Disc| d.size as int)
    }

    /// Every disc belongs to this game, none lies on a smaller one, and the
    /// peg holds no more discs than the game has.
    pub open spec fn wf(&self) -> bool {
        &&& self.stack@.len() <= self.capacity
        &&& forall|i: int|
            0 <= i < self.stack@.len() ==> {
                &&& (#[trigger] self.stack@[i]).wf()
                &&& self.stack@[i].max + 1 == self.capacity
            }
        &&& descending(self.sizes())
    }

    /// What the peg shows from the top row down: the empty slots, then the
    /// discs from the top of the stack to the bottom, `capacity` rows in all.
    pub open spec fn rows(&self) -> Seq<Seq<char>> {
        let cap = self.capacity as int;
        let free = cap - self.stack@.len();
        Seq::new(
            self.capacity as nat,
            |i: int|
                if i < free {
                    slot_cell(largest_disc(self.capacity as nat))
                } else {
                    self.stack@[cap - 1 - i].repr@
                },
        )
    }

    /// A peg holding all `capacity` discs in order, largest at the bottom.
    pub fn new(label: PegLabel, capacity: u8) -> (r: Peg)
        ensures
            r.label == label,
            r.capacity == capacity,
            r.sizes() == tower(capacity as nat),
            r.wf(),
    {
        let mut stack: Vec<Disc> = Vec::with_capacity(capacity as usize);
        let mut k: u8 = capacity;
        while k > 0
            invariant
                k <= capacity,
                stack@.len() == capacity - k,
                forall|i: int|
                    0 <= i < stack@.len() ==> {
                        &&& (#[trigger] stack@[i]).wf()
                        &&& stack@[i].max + 1 == capacity
                        &&& stack@[i].size == capacity - 1 - i
                    },
            decreases k,
        {
            k = k - 1;
            if let Ok(d) = Disc::new(k, capacity - 1) {
                stack.push(d);
            }
        }
        let r = Peg { label, capacity, stack };
        assert(r.sizes() =~= tower(capacity as nat));
        r
    }

    /// A peg without discs in a game of `capacity` discs.
    pub fn new_empty(label: PegLabel, capacity: u8) -> (r: Peg)
        ensures
            r.label == label,
            r.capacity == capacity,
            r.stack@.len() == 0,
            r.wf(),
    {
        Peg { label, capacity, stack: Vec::with_capacity(capacity as usize) }
    }

    /// Takes the top disc off; refused when the peg is empty, which leaves it
    /// as it was.
    pub fn pop_top(&mut self) -> (r: Result<Disc, HanoiError>)
        ensures
            final(self).label == old(self).label,
            final(self).capacity == old(self).capacity,
            old(self).stack@.len() == 0 ==> r == Err::<Disc, HanoiError>(
                HanoiError::EmptyPegUnderflow,
            ) && final(self).stack@ == old(self).stack@,
            old(self).stack@.len() > 0 ==> r == Ok::<Disc, HanoiError>(old(self).stack@.last())
                && final(self).stack@ == old(self).stack@.drop_last(),
            old(self).wf() ==> final(self).wf(),
    {
        match self.stack.pop() {
            Some(d) => {
                assert(self.sizes() =~= old(self).sizes().drop_last());
                Ok(d)
            },
            None => Err(HanoiError::EmptyPegUnderflow),
        }
    }

    /// Puts `disc` on top; the caller keeps it smaller than the disc below.
    pub fn push(&mut self, disc: Disc)
        requires
            old(self).wf(),
            disc.wf(),
            disc.max + 1 == old(self).capacity,
            old(self).stack@.len() < old(self).capacity,
            old(self).stack@.len() > 0 ==> disc.size < old(self).stack@.last().size,
        ensures
            final(self).label == old(self).label,
            final(self).capacity == old(self).capacity,
            final(self).stack@ == old(self).stack@.push(disc),
            final(self).wf(),
    {
        let ghost below = old(self).sizes();
        self.stack.push(disc);
        assert(self.sizes() =~= below.push(disc.size as int));
        assert forall|i: int| 0 <= i < below.len() implies below[i] > disc.size by {
            if i < below.len() - 1 {
                assert(below[i] > below[below.len() - 1]);
            }
        }
    }

    /// The rows of the peg as text, from the top row down (see `rows`); every
    /// row is as wide as every cell of the game.
    pub fn get_peg_repr(&self, config: &Config) -> (r: Vec<String>)
        requires
            self.wf(),
            config.wf(),
            config.game_size == self.capacity,
        ensures
            r@.len() == self.capacity,
            forall|i: int| 0 <= i < r@.len() ==> (#[trigger] r@[i])@ == self.rows()[i],
            forall|i: int|
                0 <= i < r@.len() ==> (#[trigger] r@[i])@.len() == cell_width(
                    largest_disc(self.capacity as nat),
                ),
    {
        let cap = self.capacity as usize;
        let len = self.stack.len();
        let free = cap - len;
        let mut r: Vec<String> = Vec::with_capacity(cap);
        let mut i: usize = 0;
        while i < cap
            invariant
                self.wf(),
                config.wf(),
                config.game_size == self.capacity,
                cap == self.capacity,
                len == self.stack@.len(),
                free == cap - len,
                i <= cap,
                r@.len() == i,
                forall|k: int| 0 <= k < i ==> (#[trigger] r@[k])@ == self.rows()[k],
            decreases cap - i,
        {
            if i < free {
                r.push(config.empty_slot_repr.clone());
            } else {
                r.push(self.stack[cap - 1 - i].repr.clone());
            }
            i = i + 1;
        }
        proof {
            assert forall|k: int| 0 <= k < r@.len() implies (#[trigger] r@[k])@.len()
                == cell_width(largest_disc(self.capacity as nat)) by {
                if k < free {
                    lemma_cell_widths(0, largest_disc(self.capacity as nat));
                } else {
                    let d = self.stack@[cap - 1 - k];
                    assert(d.wf());
                    lemma_cell_widths(d.size as nat, d.max as nat);
                }
            }
        }
        r
    }
}

} // verus!
