//! Layout of a frame: the three pegs side by side in label order.
use vstd::prelude::*;
use vstd::string::StringExecFns;
use crate::board::valid_frame;
use crate::disc::{Config, cell_width, largest_disc};
use crate::peg::{Peg, PegLabel};

verus! {

/// The peg among `a`, `b`, `c` that carries `label` (`c` when none of the
/// others does).
pub open spec fn labelled(a: Peg, b: Peg, c: Peg, label: PegLabel) -> Peg {
    if a.label == label {
        a
    } else if b.label == label {
        b
    } else {
        c
    }
}

/// One line of a frame: a space before each of the three cells.
pub open spec fn frame_line(l: Seq<char>, m: Seq<char>, r: Seq<char>) -> Seq<char> {
    seq![' '] + l + seq![' '] + m + seq![' '] + r
}

/// The pegs `a`, `b`, `c` reordered as Left, Middle, Right, whatever roles
/// they were passed in.
pub fn order_by_label<'a>(a: &'a Peg, b: &'a Peg, c: &'a Peg) -> (r: (&'a Peg, &'a Peg, &'a Peg))
    requires
        a.label != b.label,
        b.label != c.label,
        a.label != c.label,
    ensures
        *r.0 == labelled(*a, *b, *c, PegLabel::Left),
        *r.1 == labelled(*a, *b, *c, PegLabel::Middle),
        *r.2 == labelled(*a, *b, *c, PegLabel::Right),
{
    let mut x = a;
    let mut y = b;
    let mut z = c;
    if x.label.rank() > y.label.rank() {
        let t = x;
        x = y;
        y = t;
    }
    if y.label.rank() > z.label.rank() {
        let t = y;
        y = z;
        z = t;
    }
    if x.label.rank() > y.label.rank() {
        let t = x;
        x = y;
        y = t;
    }
    (x, y, z)
}

/// The lines of the frame that shows `a`, `b`, `c`, one per row, from the
/// top down: the left, middle and right pegs' cells of that row side by side.
pub fn render_frame(a: &Peg, b: &Peg, c: &Peg, config: &Config) -> (r: Vec<String>)
    requires
        valid_frame(*a, *b, *c),
        config.wf(),
        config.game_size == a.capacity,
    ensures
        r@.len() == a.capacity,
        forall|i: int|
            0 <= i < r@.len() ==> (#[trigger] r@[i])@ == frame_line(
                labelled(*a, *b, *c, PegLabel::Left).rows()[i],
                labelled(*a, *b, *c, PegLabel::Middle).rows()[i],
                labelled(*a, *b, *c, PegLabel::Right).rows()[i],
            ),
        forall|i: int|
            0 <= i < r@.len() ==> (#[trigger] r@[i])@.len() == 3 * (cell_width(
                largest_disc(a.capacity as nat),
            ) + 1),
{
    let (left, middle, right) = order_by_label(a, b, c);
    let lrows = left.get_peg_repr(config);
    let mrows = middle.get_peg_repr(config);
    let rrows = right.get_peg_repr(config);
    let rows = a.capacity as usize;
    proof {
        reveal_strlit(" ");
        assert(" "@ =~= seq![' ']);
    }
    let mut r: Vec<String> = Vec::with_capacity(rows);
    let mut i: usize = 0;
    while i < rows
        invariant
            rows == a.capacity,
            lrows@.len() == rows,
            mrows@.len() == rows,
            rrows@.len() == rows,
            " "@ == seq![' '],
            i <= rows,
            r@.len() == i,
            forall|k: int|
                0 <= k < i ==> (#[trigger] r@[k])@ == frame_line(
                    lrows@[k]@,
                    mrows@[k]@,
                    rrows@[k]@,
                ),
        decreases rows - i,
    {
        let mut line = String::new();
        line.append(" ");
        line.append(lrows[i].as_str());
        line.append(" ");
        line.append(mrows[i].as_str());
        line.append(" ");
        line.append(rrows[i].as_str());
        assert(line@ =~= frame_line(lrows@[i as int]@, mrows@[i as int]@, rrows@[i as int]@));
        r.push(line);
        i = i + 1;
    }
    r
}

/// Row of the terminal where a frame of `capacity` lines starts so that it
/// ends on the last row of a terminal `height` rows high; the first row when
/// the terminal is not that high.
pub fn home_row(height: u16, capacity: u8) -> (r: u16)
    ensures
        height > capacity ==> r == height - capacity,
        height <= capacity ==> r == 1,
{
    if height > capacity as u16 {
        height - capacity as u16
    } else {
        1
    }
}

} // verus!
