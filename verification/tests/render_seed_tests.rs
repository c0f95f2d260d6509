use life::render::render;
use life::seed::random_board;

const FULL: char = '\u{2588}';
const LIGHT: char = '\u{2591}';

#[test]
fn render_draws_one_glyph_per_cell_and_one_line_per_row() {
    let b = vec![true, false, false, true];
    let s = render(&b, 2, 2);
    let expected: String = vec![FULL, LIGHT, '\n', LIGHT, FULL, '\n'].into_iter().collect();
    assert_eq!(s, expected);
}

#[test]
fn render_single_row() {
    let b = vec![false, true, true];
    let s = render(&b, 3, 1);
    let expected: String = vec![LIGHT, FULL, FULL, '\n'].into_iter().collect();
    assert_eq!(s, expected);
}

#[test]
fn render_length_counts_cells_and_newlines() {
    let b = vec![false; 60 * 30];
    let s = render(&b, 60, 30);
    assert_eq!(s.chars().count(), (60 + 1) * 30);
    assert_eq!(s.lines().count(), 30);
}

#[test]
fn random_board_has_width_times_height_cells() {
    let mut rng = rand::rng();
    let b = random_board(&mut rng, 60, 30, 1, 5);
    assert_eq!(b.len(), 60 * 30);
}

#[test]
fn random_board_with_zero_ratio_is_all_dead() {
    let mut rng = rand::rng();
    let b = random_board(&mut rng, 8, 4, 0, 5);
    assert_eq!(b, vec![false; 32]);
}

#[test]
fn random_board_with_full_ratio_is_all_live() {
    let mut rng = rand::rng();
    let b = random_board(&mut rng, 8, 4, 5, 5);
    assert_eq!(b, vec![true; 32]);
}
