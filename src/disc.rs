//! Discs, the game configuration, and the fixed-width cells they are drawn in.
use vstd::prelude::*;
use vstd::string::StringExecFns;
use crate::error::HanoiError;
use crate::text::{FILL, POST, decimal, run, centered, lemma_decimal_len, push_decimal, decimal_len, push_run};

verus! {

/// Width of every cell of a game whose largest disc has size `max`: the
/// width of that disc's glyph run.
pub open spec fn cell_width(max: nat) -> nat {
    2 * max + decimal(max).len()
}

/// The glyph run of a disc: `size` fill glyphs on each side of its numeral.
pub open spec fn disc_glyph(size: nat) -> Seq<char> {
    run(FILL, size) + decimal(size) + run(FILL, size)
}

/// The cell of a disc of size `size` in a game whose largest disc has size `max`.
pub open spec fn disc_cell(size: nat, max: nat) -> Seq<char> {
    centered(disc_glyph(size), cell_width(max))
}

/// The cell of an empty slot in a game whose largest disc has size `max`.
pub open spec fn slot_cell(max: nat) -> Seq<char> {
    centered(seq![POST], cell_width(max))
}

/// Size of the largest disc of a game of `n` discs (0 when there are none).
pub open spec fn largest_disc(n: nat) -> nat {
    if n == 0 {
        0
    } else {
        (n - 1) as nat
    }
}

/// A smaller disc has a glyph run no wider than a larger one.
pub proof fn lemma_glyph_fits(size: nat, max: nat)
    requires
        size <= max,
        max < 256,
    ensures
        disc_glyph(size).len() <= cell_width(max),
        cell_width(max) <= 513,
        1 <= cell_width(max),
{
    lemma_decimal_len(size);
    lemma_decimal_len(max);
}

/// Every cell of a game has the same width.
pub proof fn lemma_cell_widths(size: nat, max: nat)
    requires
        size <= max,
        max < 256,
    ensures
        disc_cell(size, max).len() == cell_width(max),
        slot_cell(max).len() == cell_width(max),
{
    lemma_glyph_fits(size, max);
}

/// Appends one side of the centring for `pad` spaces of padding: the larger
/// half on the left, the smaller half on the right.
fn push_centered_run(s: &mut String, pad: usize, left: bool)
    ensures
        final(s)@ == old(s)@ + run(' ', if left {
            ((pad as nat + 1) / 2) as nat
        } else {
            (pad / 2) as nat
        }),
{
    proof {
        reveal_strlit(" ");
    }
    if left {
        push_run(s, " ", pad / 2 + pad % 2);
        assert(pad / 2 + pad % 2 == (pad as nat + 1) / 2);
    } else {
        push_run(s, " ", pad / 2);
    }
}

/// One disc: its size, the size of the largest disc of its game, and the cell
/// it is drawn in.
#[derive(Debug)]
pub struct Disc {
    pub size: u8,
    pub max: u8,
    pub repr: String,
}

impl Disc {
    /// The size fits the game and the cell is the one of this size.
    pub open spec fn wf(&self) -> bool {
        &&& self.size <= self.max
        &&& self.repr@ == disc_cell(self.size as nat, self.max as nat)
    }

    /// The disc of size `size` in a game whose largest disc has size `max`;
    /// refused when `size` exceeds `max`.
    pub fn new(size: u8, max: u8) -> (r: Result<Disc, HanoiError>)
        ensures
            size <= max <==> r is Ok,
            r is Ok ==> r->Ok_0.size == size && r->Ok_0.max == max && r->Ok_0.wf(),
            r is Err ==> r->Err_0 == HanoiError::InvalidDisc,
    {
        if size > max {
            return Err(HanoiError::InvalidDisc);
        }
        proof {
            lemma_glyph_fits(size as nat, max as nat);
            reveal_strlit("▬");
        }
        let width = 2 * (max as usize) + decimal_len(max);
        let glyph = 2 * (size as usize) + decimal_len(size);
        let pad = width - glyph;
        let mut repr = String::new();
        push_centered_run(&mut repr, pad, true);
        push_run(&mut repr, "▬", size as usize);
        push_decimal(&mut repr, size);
        push_run(&mut repr, "▬", size as usize);
        push_centered_run(&mut repr, pad, false);
        assert(repr@ =~= disc_cell(size as nat, max as nat));
        Ok(Disc { size, max, repr })
    }
}

/// What a game is played with: its number of discs, the pause after each
/// frame in milliseconds, and the cell of an empty slot.
#[derive(Debug)]
pub struct Config {
    pub game_size: u8,
    pub refresh_interval: u64,
    pub empty_slot_repr: String,
}

impl Config {
    /// The empty-slot cell matches the discs of a game of `game_size` discs.
    pub open spec fn wf(&self) -> bool {
        self.empty_slot_repr@ == slot_cell(largest_disc(self.game_size as nat))
    }

    /// The configuration of a game of `game_size` discs paced by
    /// `refresh_interval` milliseconds.
    pub fn new(game_size: u8, refresh_interval: u64) -> (r: Config)
        ensures
            r.game_size == game_size,
            r.refresh_interval == refresh_interval,
            r.wf(),
    {
        let max: u8 = if game_size == 0 {
            0
        } else {
            game_size - 1
        };
        proof {
            lemma_glyph_fits(0, max as nat);
            reveal_strlit("┃");
        }
        let pad = 2 * (max as usize) + decimal_len(max) - 1;
        let mut empty_slot_repr = String::new();
        push_centered_run(&mut empty_slot_repr, pad, true);
        empty_slot_repr.append("┃");
        push_centered_run(&mut empty_slot_repr, pad, false);
        assert(empty_slot_repr@ =~= slot_cell(max as nat));
        Config { game_size, refresh_interval, empty_slot_repr }
    }
}

} // verus!
