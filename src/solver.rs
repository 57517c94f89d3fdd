//! The recursive transfer of a tower from one peg to another.
use vstd::prelude::*;
use vstd::arithmetic::power2::{pow2, lemma_pow2_unfold, lemma_pow2_strictly_increases, lemma2_to64_rest};
use crate::board::{Board, discs_on, valid_frame};
use crate::error::HanoiError;
use crate::peg::{Peg, PegLabel, descending, tower};

verus! {

/// Largest number of discs that `solve_game` accepts.
pub const MAX_GAME_SIZE: u8 = 32;

/// The top `k + 1` discs of `p` are the discs of sizes `k` down to 0.
pub open spec fn holds_tower(p: Peg, k: nat) -> bool {
    let s = p.sizes();
    &&& k < s.len()
    &&& s.subrange(s.len() - k - 1, s.len() as int) == tower(k + 1)
}

/// Every disc on `p` is larger than `k`.
pub open spec fn clears(p: Peg, k: nat) -> bool {
    forall|i: int| 0 <= i < p.sizes().len() ==> p.sizes()[i] > k
}

/// A legal state stays legal whichever roles its pegs are listed in.
pub proof fn lemma_frame_roles(a: Peg, b: Peg, c: Peg)
    requires
        valid_frame(a, b, c),
    ensures
        valid_frame(a, c, b),
        valid_frame(c, b, a),
{
    assert(discs_on(a, c, b) =~= discs_on(a, b, c));
    assert(discs_on(c, b, a) =~= discs_on(a, b, c));
}

/// In a legal state, a peg that some other peg's disc could go onto has room
/// for it.
proof fn lemma_room(from: Peg, to: Peg, other: Peg)
    requires
        valid_frame(from, to, other),
        from.stack@.len() > 0,
    ensures
        to.stack@.len() < to.capacity,
{
    broadcast use vstd::seq_lib::group_to_multiset_ensures;

    assert(discs_on(from, to, other).len() == tower(from.capacity as nat).len());
}

/// Moving the top disc of one peg onto a peg that is empty or whose top disc
/// is larger keeps the state legal: no disc comes to lie on a smaller one,
/// and each disc of the game is still on exactly one peg.
pub proof fn lemma_move_keeps_frame(from: Peg, to: Peg, other: Peg, from2: Peg, to2: Peg)
    requires
        valid_frame(from, to, other),
        from.stack@.len() > 0,
        to.stack@.len() > 0 ==> from.stack@.last().size < to.stack@.last().size,
        from2.label == from.label,
        from2.capacity == from.capacity,
        to2.label == to.label,
        to2.capacity == to.capacity,
        from2.stack@ == from.stack@.drop_last(),
        to2.stack@ == to.stack@.push(from.stack@.last()),
    ensures
        valid_frame(from2, to2, other),
{
    broadcast use vstd::seq_lib::group_to_multiset_ensures;

    lemma_room(from, to, other);
    let x = from.stack@.last();
    let fs = from.sizes();
    let ts = to.sizes();
    assert(from.stack@[from.stack@.len() - 1].wf());
    assert(fs =~= from2.sizes().push(x.size as int));
    assert(to2.sizes() =~= ts.push(x.size as int));
    assert forall|i: int| 0 <= i < ts.len() implies ts[i] > x.size by {
        if i < ts.len() - 1 {
            assert(ts[i] > ts[ts.len() - 1]);
        }
        assert(ts[ts.len() - 1] == to.stack@.last().size);
    }
    assert(descending(to2.sizes()));
    assert forall|i: int, j: int| 0 <= i < j < from2.sizes().len() implies from2.sizes()[i]
        > from2.sizes()[j] by {
        assert(from2.sizes()[i] == fs[i] && from2.sizes()[j] == fs[j]);
    }
    assert(to2.wf());
    assert(from2.wf());
    assert(discs_on(from2, to2, other) =~= discs_on(from, to, other));
}

/// Shows the state, moves the top disc of `source` onto `dest`, and shows
/// the state again.
fn relocate<F: Fn(&Peg, &Peg, &Peg)>(source: &mut Peg, dest: &mut Peg, spare: &Peg, display: &F)
    requires
        valid_frame(*old(source), *old(dest), *spare),
        old(source).stack@.len() > 0,
        old(dest).stack@.len() > 0 ==> old(source).stack@.last().size < old(
            dest,
        ).stack@.last().size,
        forall|a: Peg, b: Peg, c: Peg| valid_frame(a, b, c) ==> #[trigger] display.requires((&a, &b, &c)),
    ensures
        final(source).label == old(source).label,
        final(source).capacity == old(source).capacity,
        final(dest).label == old(dest).label,
        final(dest).capacity == old(dest).capacity,
        final(source).stack@ == old(source).stack@.drop_last(),
        final(dest).stack@ == old(dest).stack@.push(old(source).stack@.last()),
        valid_frame(*final(source), *final(dest), *spare),
{
    display(source, dest, spare);
    proof {
        lemma_room(*source, *dest, *spare);
    }
    if let Ok(disc) = source.pop_top() {
        dest.push(disc);
    }
    proof {
        lemma_move_keeps_frame(*old(source), *old(dest), *spare, *source, *dest);
    }
    display(source, dest, spare);
}

/// Moves the discs of sizes `disc_size` down to 0 from the top of `source`
/// onto `dest`, by way of `spare`, never putting a disc on a smaller one.
/// Every state is shown before and after each move, and the number of moves
/// made, `2^(disc_size + 1) - 1`, is returned.
#[verifier::rlimit(30)]
pub fn move_tower<F: Fn(&Peg, &Peg, &Peg)>(
    disc_size: u8,
    source: &mut Peg,
    dest: &mut Peg,
    spare: &mut Peg,
    display: &F,
) -> (moves: u64)
    requires
        disc_size < 64,
        valid_frame(*old(source), *old(dest), *old(spare)),
        holds_tower(*old(source), disc_size as nat),
        clears(*old(dest), disc_size as nat),
        clears(*old(spare), disc_size as nat),
        forall|a: Peg, b: Peg, c: Peg| valid_frame(a, b, c) ==> #[trigger] display.requires((&a, &b, &c)),
    ensures
        final(source).label == old(source).label,
        final(source).capacity == old(source).capacity,
        final(dest).label == old(dest).label,
        final(dest).capacity == old(dest).capacity,
        final(spare).label == old(spare).label,
        final(spare).capacity == old(spare).capacity,
        final(source).stack@ == old(source).stack@.subrange(
            0,
            old(source).stack@.len() - disc_size - 1,
        ),
        final(dest).stack@ == old(dest).stack@ + old(source).stack@.subrange(
            old(source).stack@.len() - disc_size - 1,
            old(source).stack@.len() as int,
        ),
        final(spare).stack@ == old(spare).stack@,
        valid_frame(*final(source), *final(dest), *final(spare)),
        moves + 1 == pow2(disc_size as nat + 1),
    decreases disc_size,
{
    let ghost s0 = source.stack@;
    let ghost d0 = dest.stack@;
    let ghost p0 = spare.stack@;
    let ghost n = s0.len() as int;
    let ghost k = disc_size as int;
    proof {
        lemma_pow2_unfold(disc_size as nat + 1);
        lemma_pow2_unfold(1);
        assert(pow2(0) == 1) by {
            vstd::arithmetic::power2::lemma2_to64();
        }
    }
    if disc_size == 0 {
        proof {
            // the top of `source` is the smallest disc, and every disc on
            // `dest` is larger
            assert(source.sizes()[n - 1] == source.sizes().subrange(n - 1, n)[0]);
            assert(source.stack@.last().size == source.sizes()[n - 1]);
            if dest.stack@.len() > 0 {
                assert(dest.stack@.last().size == dest.sizes()[dest.sizes().len() - 1]);
            }
        }
        relocate(source, dest, spare, display);
        proof {
            assert(source.stack@ =~= s0.subrange(0, n - 1));
            assert(dest.stack@ =~= d0 + s0.subrange(n - 1, n));
        }
        1
    } else {
        proof {
            let s = source.sizes();
            assert(s.subrange(n - k, n) =~= tower(k as nat)) by {
                assert forall|j: int| 0 <= j < k implies s[n - k + j] == #[trigger] tower(k as nat)[j] by {
                    assert(s[n - k + j] == s.subrange(n - k - 1, n)[j + 1]);
                }
            }
            lemma_frame_roles(*source, *dest, *spare);
        }
        let m1 = move_tower(disc_size - 1, source, spare, dest, display);
        proof {
            lemma_frame_roles(*source, *spare, *dest);
            assert(source.stack@ =~= s0.subrange(0, n - k));
            assert(source.sizes()[n - k - 1] == k) by {
                assert(old(source).sizes().subrange(n - k - 1, n)[0] == k);
            }
            assert(source.stack@.last().size == source.sizes()[n - k - 1]);
            if dest.stack@.len() > 0 {
                assert(dest.stack@.last().size == dest.sizes()[dest.sizes().len() - 1]);
            }
        }
        relocate(source, dest, spare, display);
        proof {
            let s = old(source).sizes();
            assert(source.stack@ =~= s0.subrange(0, n - k - 1));
            assert forall|i: int| 0 <= i < source.sizes().len() implies source.sizes()[i] > k - 1 by {
                assert(s[i] > s[n - k - 1]);
                assert(s.subrange(n - k - 1, n)[0] == k);
            }
            let sp = spare.sizes();
            assert(sp.subrange(sp.len() - k, sp.len() as int) =~= tower(k as nat)) by {
                assert forall|j: int| 0 <= j < k implies sp[sp.len() - k + j] == #[trigger] tower(k as nat)[j] by {
                    assert(sp[sp.len() - k + j] == s[n - k + j]);
                    assert(s[n - k + j] == s.subrange(n - k - 1, n)[j + 1]);
                }
            }
            assert(dest.sizes() =~= old(dest).sizes().push(k));
            lemma_frame_roles(*source, *dest, *spare);
        }
        let m2 = move_tower(disc_size - 1, spare, dest, source, display);
        proof {
            lemma_frame_roles(*spare, *dest, *source);
            assert(spare.stack@ =~= p0);
            assert(dest.stack@ =~= d0 + s0.subrange(n - k - 1, n));
            if disc_size < 63 {
                lemma_pow2_strictly_increases(disc_size as nat + 1, 64);
            }
            lemma2_to64_rest();
        }
        m1 + 1 + m2
    }
}

/// Plays a game of `game_size` discs from the left peg to the right one,
/// handing every state, before and after each move, to `display`; refused
/// unless `game_size` lies between 1 and `MAX_GAME_SIZE`. The solved board
/// has all discs on the right peg, in order, and the other pegs empty.
pub fn solve_game<F: Fn(&Peg, &Peg, &Peg)>(game_size: u8, display: &F) -> (r: Result<
    Board,
    HanoiError,
>)
    requires
        forall|a: Peg, b: Peg, c: Peg| valid_frame(a, b, c) ==> #[trigger] display.requires((&a, &b, &c)),
    ensures
        r is Ok <==> 1 <= game_size <= MAX_GAME_SIZE,
        r is Err ==> r->Err_0 == HanoiError::InvalidGameSize,
        r is Ok ==> ({
            let b = r->Ok_0;
            &&& b.0.label == PegLabel::Left
            &&& b.1.label == PegLabel::Middle
            &&& b.2.label == PegLabel::Right
            &&& b.2.capacity == game_size
            &&& b.0.stack@.len() == 0
            &&& b.1.stack@.len() == 0
            &&& b.2.sizes() == tower(game_size as nat)
            &&& valid_frame(b.0, b.1, b.2)
        }),
{
    let board = Board::new(game_size, MAX_GAME_SIZE);
    match board {
        Err(e) => Err(e),
        Ok(Board(mut left, mut middle, mut right)) => {
            let ghost s0 = left.stack@;
            proof {
                assert(left.sizes().subrange(0, game_size as int) =~= left.sizes());
                lemma_frame_roles(left, middle, right);
            }
            move_tower(game_size - 1, &mut left, &mut right, &mut middle, display);
            proof {
                lemma_frame_roles(left, right, middle);
                assert(right.stack@ =~= s0);
            }
            Ok(Board(left, middle, right))
        },
    }
}

} // verus!
