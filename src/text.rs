//! Fixed-width text cells: decimal numerals, glyph runs and centring.
use vstd::prelude::*;
use vstd::string::StringExecFns;

verus! {

/// Glyph that a disc is drawn with on both sides of its numeral.
pub const FILL: char = '▬';

/// Glyph that marks an empty slot of a peg.
pub const POST: char = '┃';

/// The decimal digit `d` (0 to 9) as a character.
pub open spec fn digit(d: nat) -> char {
    seq!['0', '1', '2', '3', '4', '5', '6', '7', '8', '9'][d as int]
}

/// Decimal numeral of `n`, most significant digit first, without leading zeros.
pub open spec fn decimal(n: nat) -> Seq<char>
    decreases n,
{
    if n < 10 {
        seq![digit(n)]
    } else {
        decimal(n / 10).push(digit(n % 10))
    }
}

/// `k` copies of the glyph `c`.
pub open spec fn run(c: char, k: nat) -> Seq<char> {
    Seq::new(k, |i: int| c)
}

/// `body` centred in a field of `width` spaces; when the padding is odd the
/// left side gets the extra space.
pub open spec fn centered(body: Seq<char>, width: nat) -> Seq<char> {
    let pad = (width - body.len()) as nat;
    run(' ', (pad + 1) / 2) + body + run(' ', pad / 2)
}

/// Number of decimal digits of a value below 1000.
pub proof fn lemma_decimal_len(n: nat)
    requires
        n < 1000,
    ensures
        decimal(n).len() == if n < 10 {
            1nat
        } else if n < 100 {
            2nat
        } else {
            3nat
        },
{
    if n >= 10 {
        assert(decimal(n) == decimal(n / 10).push(digit(n % 10)));
        if n >= 100 {
            assert(decimal(n / 10) == decimal(n / 10 / 10).push(digit((n / 10) % 10)));
        }
    }
}

/// Appends the decimal digit `d`.
fn push_digit(s: &mut String, d: u8)
    requires
        d < 10,
    ensures
        final(s)@ == old(s)@.push(digit(d as nat)),
{
    proof {
        reveal_strlit("0");
        reveal_strlit("1");
        reveal_strlit("2");
        reveal_strlit("3");
        reveal_strlit("4");
        reveal_strlit("5");
        reveal_strlit("6");
        reveal_strlit("7");
        reveal_strlit("8");
        reveal_strlit("9");
    }
    let lit: &str = if d == 0 {
        "0"
    } else if d == 1 {
        "1"
    } else if d == 2 {
        "2"
    } else if d == 3 {
        "3"
    } else if d == 4 {
        "4"
    } else if d == 5 {
        "5"
    } else if d == 6 {
        "6"
    } else if d == 7 {
        "7"
    } else if d == 8 {
        "8"
    } else {
        "9"
    };
    assert(lit@ =~= seq![digit(d as nat)]);
    s.append(lit);
}

/// Appends the decimal numeral of `n`.
pub fn push_decimal(s: &mut String, n: u8)
    ensures
        final(s)@ == old(s)@ + decimal(n as nat),
{
    let ghost start = s@;
    let ghost m = n as nat;
    if n >= 100 {
        push_digit(s, n / 100);
    }
    if n >= 10 {
        push_digit(s, (n / 10) % 10);
    }
    push_digit(s, n % 10);
    proof {
        if m >= 10 {
            assert(decimal(m) == decimal(m / 10).push(digit(m % 10)));
            if m >= 100 {
                assert(m / 10 / 10 == m / 100);
                assert(decimal(m / 10) == decimal(m / 10 / 10).push(digit((m / 10) % 10)));
                assert(decimal(m / 100) =~= seq![digit(m / 100)]);
            }
        }
        assert(s@ =~= start + decimal(m));
    }
}

/// Number of decimal digits of `n`.
pub fn decimal_len(n: u8) -> (r: usize)
    ensures
        r == decimal(n as nat).len(),
        1 <= r <= 3,
{
    proof {
        lemma_decimal_len(n as nat);
    }
    if n < 10 {
        1
    } else if n < 100 {
        2
    } else {
        3
    }
}

/// Appends `k` copies of the single glyph held by `glyph`.
pub fn push_run(s: &mut String, glyph: &str, k: usize)
    requires
        glyph@.len() == 1,
    ensures
        final(s)@ == old(s)@ + run(glyph@[0], k as nat),
{
    let ghost start = s@;
    let mut i: usize = 0;
    while i < k
        invariant
            i <= k,
            glyph@.len() == 1,
            s@ =~= start + run(glyph@[0], i as nat),
        decreases k - i,
    {
        s.append(glyph);
        i = i + 1;
        assert(s@ =~= start + run(glyph@[0], i as nat));
    }
}

} // verus!
