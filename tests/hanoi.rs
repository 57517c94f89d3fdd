use std::cell::Cell;
use towers_of_hanoi::{
    home_row, move_tower, order_by_label, render_frame, solve_game, Board, Config, Disc,
    HanoiError, Peg, PegLabel, MAX_GAME_SIZE,
};

fn fills(k: usize) -> String {
    "▬".repeat(k)
}

fn spaces(k: usize) -> String {
    " ".repeat(k)
}

fn sizes(p: &Peg) -> Vec<u8> {
    p.stack.iter().map(|d| d.size).collect()
}

/// Checks, at run time, what every frame must satisfy for a game of `n` discs.
fn check_frame(a: &Peg, b: &Peg, c: &Peg, n: u8) {
    let mut all: Vec<u8> = Vec::new();
    for p in [a, b, c] {
        assert_eq!(p.capacity, n);
        let s = sizes(p);
        for w in s.windows(2) {
            assert!(w[0] > w[1], "a larger disc lies on a smaller one: {:?}", s);
        }
        all.extend(s);
    }
    all.sort();
    assert_eq!(all, (0..n).collect::<Vec<u8>>());
    let mut labels = vec![a.label.rank(), b.label.rank(), c.label.rank()];
    labels.sort();
    assert_eq!(labels, vec![0, 1, 2]);
}

#[test]
fn disc_cells_of_a_three_disc_game() {
    assert_eq!(Disc::new(0, 2).unwrap().repr, "  0  ");
    assert_eq!(Disc::new(1, 2).unwrap().repr, " ▬1▬ ");
    assert_eq!(Disc::new(2, 2).unwrap().repr, "▬▬2▬▬");
}

#[test]
fn disc_keeps_its_size_and_max() {
    let d = Disc::new(4, 7).unwrap();
    assert_eq!(d.size, 4);
    assert_eq!(d.max, 7);
}

#[test]
fn disc_cells_with_two_digit_sizes() {
    let d = Disc::new(3, 10).unwrap();
    assert_eq!(d.repr, format!("{}{}3{}{}", spaces(8), fills(3), fills(3), spaces(7)));
    let d = Disc::new(10, 10).unwrap();
    assert_eq!(d.repr, format!("{}10{}", fills(10), fills(10)));
}

#[test]
fn odd_padding_puts_the_extra_space_on_the_left() {
    let d = Disc::new(9, 10).unwrap();
    assert_eq!(d.repr, format!("{}{}9{}{}", spaces(2), fills(9), fills(9), spaces(1)));
}

#[test]
fn disc_above_max_is_refused() {
    assert_eq!(Disc::new(3, 2).unwrap_err(), HanoiError::InvalidDisc);
    assert_eq!(Disc::new(255, 0).unwrap_err(), HanoiError::InvalidDisc);
    assert!(Disc::new(255, 255).is_ok());
}

#[test]
fn config_empty_slot_cells() {
    let c = Config::new(3, 0);
    assert_eq!(c.game_size, 3);
    assert_eq!(c.refresh_interval, 0);
    assert_eq!(c.empty_slot_repr, "  ┃  ");
    assert_eq!(Config::new(10, 5).empty_slot_repr, format!("{}┃{}", spaces(9), spaces(9)));
    assert_eq!(Config::new(11, 5).empty_slot_repr, format!("{}┃{}", spaces(11), spaces(10)));
    assert_eq!(Config::new(1, 0).empty_slot_repr, "┃");
    assert_eq!(Config::new(0, 0).empty_slot_repr, "┃");
}

#[test]
fn loaded_peg_holds_a_full_tower() {
    let p = Peg::new(PegLabel::Middle, 4);
    assert_eq!(p.label, PegLabel::Middle);
    assert_eq!(p.capacity, 4);
    assert_eq!(sizes(&p), vec![3, 2, 1, 0]);
    assert!(p.stack.iter().all(|d| d.max == 3));
}

#[test]
fn empty_peg_holds_nothing() {
    let p = Peg::new_empty(PegLabel::Right, 4);
    assert_eq!(p.label, PegLabel::Right);
    assert_eq!(p.capacity, 4);
    assert!(p.stack.is_empty());
}

#[test]
fn pop_top_on_empty_peg_underflows() {
    let mut p = Peg::new_empty(PegLabel::Left, 3);
    assert_eq!(p.pop_top().unwrap_err(), HanoiError::EmptyPegUnderflow);
    assert!(p.stack.is_empty());
}

#[test]
fn pop_top_then_push_moves_the_top_disc() {
    let mut a = Peg::new(PegLabel::Left, 3);
    let mut b = Peg::new_empty(PegLabel::Right, 3);
    let d = a.pop_top().unwrap();
    assert_eq!(d.size, 0);
    b.push(d);
    assert_eq!(sizes(&a), vec![2, 1]);
    assert_eq!(sizes(&b), vec![0]);
    let mut e = Peg::new_empty(PegLabel::Middle, 3);
    assert_eq!(sizes(&e), Vec::<u8>::new());
    e.push(a.pop_top().unwrap());
    assert_eq!(sizes(&e), vec![1]);
}

#[test]
fn peg_rows_show_gaps_above_discs() {
    let config = Config::new(3, 0);
    let mut a = Peg::new(PegLabel::Left, 3);
    let mut b = Peg::new_empty(PegLabel::Right, 3);
    b.push(a.pop_top().unwrap());
    assert_eq!(a.get_peg_repr(&config), vec!["  ┃  ", " ▬1▬ ", "▬▬2▬▬"]);
    assert_eq!(b.get_peg_repr(&config), vec!["  ┃  ", "  ┃  ", "  0  "]);
    let full = Peg::new(PegLabel::Middle, 3);
    assert_eq!(full.get_peg_repr(&config), vec!["  0  ", " ▬1▬ ", "▬▬2▬▬"]);
}

#[test]
fn board_starts_with_all_discs_on_the_left() {
    let Board(l, m, r) = Board::new(3, MAX_GAME_SIZE).unwrap();
    assert_eq!((l.label, m.label, r.label), (PegLabel::Left, PegLabel::Middle, PegLabel::Right));
    assert_eq!(sizes(&l), vec![2, 1, 0]);
    assert!(m.stack.is_empty() && r.stack.is_empty());
    assert_eq!((l.capacity, m.capacity, r.capacity), (3, 3, 3));
}

#[test]
fn board_sizes_outside_the_range_are_refused() {
    assert_eq!(Board::new(0, 32).unwrap_err(), HanoiError::InvalidGameSize);
    assert_eq!(Board::new(33, 32).unwrap_err(), HanoiError::InvalidGameSize);
    assert_eq!(Board::new(60, 59).unwrap_err(), HanoiError::InvalidGameSize);
    assert!(Board::new(1, 32).is_ok());
    assert!(Board::new(32, 32).is_ok());
    assert!(Board::new(59, 59).is_ok());
}

fn count_moves(n: u8) -> (u64, u64) {
    let Board(mut l, mut m, mut r) = Board::new(n, MAX_GAME_SIZE).unwrap();
    let frames = Cell::new(0u64);
    let show = |a: &Peg, b: &Peg, c: &Peg| {
        check_frame(a, b, c, n);
        frames.set(frames.get() + 1);
    };
    let moves = move_tower(n - 1, &mut l, &mut r, &mut m, &show);
    assert!(l.stack.is_empty() && m.stack.is_empty());
    assert_eq!(sizes(&r), (0..n).rev().collect::<Vec<u8>>());
    (moves, frames.get())
}

#[test]
fn move_counts_are_one_less_than_a_power_of_two() {
    assert_eq!(count_moves(1), (1, 2));
    assert_eq!(count_moves(2), (3, 6));
    assert_eq!(count_moves(3), (7, 14));
    assert_eq!(count_moves(4), (15, 30));
    assert_eq!(count_moves(10), (1023, 2046));
}

#[test]
fn move_tower_moves_only_the_top_of_the_source() {
    let mut src = Peg::new(PegLabel::Left, 4);
    let mut dest = Peg::new_empty(PegLabel::Middle, 4);
    let mut spare = Peg::new_empty(PegLabel::Right, 4);
    let moves = move_tower(1, &mut src, &mut dest, &mut spare, &|a: &Peg, b: &Peg, c: &Peg| {
        check_frame(a, b, c, 4)
    });
    assert_eq!(moves, 3);
    assert_eq!(sizes(&src), vec![3, 2]);
    assert_eq!(sizes(&dest), vec![1, 0]);
    assert!(spare.stack.is_empty());
}

#[test]
fn solve_game_ends_on_the_right_peg() {
    for n in 1..=8u8 {
        let frames = Cell::new(0u64);
        let show = |a: &Peg, b: &Peg, c: &Peg| {
            check_frame(a, b, c, n);
            frames.set(frames.get() + 1);
        };
        let Board(l, m, r) = solve_game(n, &show).unwrap();
        assert!(l.stack.is_empty());
        assert!(m.stack.is_empty());
        assert_eq!(sizes(&r), (0..n).rev().collect::<Vec<u8>>());
        assert_eq!((l.label, m.label, r.label), (PegLabel::Left, PegLabel::Middle, PegLabel::Right));
        assert_eq!(frames.get(), 2 * ((1u64 << n) - 1));
    }
}

#[test]
fn one_disc_is_one_move_and_one_frame_pair() {
    let frames: Cell<Vec<Vec<Vec<u8>>>> = Cell::new(Vec::new());
    let show = |a: &Peg, b: &Peg, c: &Peg| {
        let mut v = frames.take();
        v.push(vec![sizes(a), sizes(b), sizes(c)]);
        frames.set(v);
    };
    let Board(l, _, r) = solve_game(1, &show).unwrap();
    assert!(l.stack.is_empty());
    assert_eq!(sizes(&r), vec![0]);
    let seen = frames.take();
    assert_eq!(seen.len(), 2);
    assert_eq!(seen[0], vec![vec![0], vec![], vec![]]);
    assert_eq!(seen[1], vec![vec![], vec![0], vec![]]);
}

#[test]
fn solve_game_refuses_sizes_outside_the_range() {
    let show = |_: &Peg, _: &Peg, _: &Peg| panic!("no frame for a refused game");
    assert_eq!(solve_game(0, &show).unwrap_err(), HanoiError::InvalidGameSize);
    assert_eq!(solve_game(MAX_GAME_SIZE + 1, &show).unwrap_err(), HanoiError::InvalidGameSize);
    assert_eq!(solve_game(255, &show).unwrap_err(), HanoiError::InvalidGameSize);
}

#[test]
fn frame_of_a_new_three_disc_board() {
    let config = Config::new(3, 0);
    let Board(l, m, r) = Board::new(3, MAX_GAME_SIZE).unwrap();
    let lines = render_frame(&l, &m, &r, &config);
    assert_eq!(
        lines,
        vec![
            "   0     ┃     ┃  ",
            "  ▬1▬    ┃     ┃  ",
            " ▬▬2▬▬   ┃     ┃  ",
        ]
    );
}

#[test]
fn frame_order_follows_labels_not_roles() {
    let config = Config::new(3, 0);
    let Board(l, m, r) = Board::new(3, MAX_GAME_SIZE).unwrap();
    let canonical = render_frame(&l, &m, &r, &config);
    assert_eq!(render_frame(&r, &l, &m, &config), canonical);
    assert_eq!(render_frame(&m, &r, &l, &config), canonical);
    assert_eq!(render_frame(&l, &r, &m, &config), canonical);
    let (a, b, c) = order_by_label(&r, &l, &m);
    assert_eq!((a.label, b.label, c.label), (PegLabel::Left, PegLabel::Middle, PegLabel::Right));
}

#[test]
fn every_cell_of_every_frame_has_one_width() {
    for n in [3u8, 10, 12] {
        let config = Config::new(n, 0);
        let width = Disc::new(n - 1, n - 1).unwrap().repr.chars().count();
        let show = |a: &Peg, b: &Peg, c: &Peg| {
            for p in [a, b, c] {
                for cell in p.get_peg_repr(&config) {
                    assert_eq!(cell.chars().count(), width);
                }
            }
            for line in render_frame(a, b, c, &config) {
                assert_eq!(line.chars().count(), 3 * (width + 1));
            }
        };
        solve_game(n, &show).unwrap();
        let Board(l, m, r) = Board::new(n, MAX_GAME_SIZE).unwrap();
        show(&l, &m, &r);
    }
}

#[test]
fn home_row_leaves_room_for_the_frame() {
    assert_eq!(home_row(24, 10), 14);
    assert_eq!(home_row(11, 10), 1);
    assert_eq!(home_row(10, 10), 1);
    assert_eq!(home_row(5, 10), 1);
}

#[test]
fn labels_rank_left_to_right() {
    assert_eq!(PegLabel::Left.rank(), 0);
    assert_eq!(PegLabel::Middle.rank(), 1);
    assert_eq!(PegLabel::Right.rank(), 2);
}
