use wasm_game_of_life::InitMode;
use wasm_game_of_life::Universe;

#[test]
fn render_draws_each_row_on_a_line() {
    let mut universe = Universe::new(InitMode::Empty);
    universe.set_width(3);
    universe.set_height(2);
    universe.set_cells(&[(0, 1), (1, 0), (1, 2)]);
    assert_eq!(universe.render(), "\u{25FB}\u{25FC}\u{25FB}\n\u{25FC}\u{25FB}\u{25FC}\n");
}

#[test]
fn render_of_an_empty_universe() {
    let universe = Universe::new(InitMode::Empty);
    let text = universe.render();
    let lines: Vec<&str> = text.split('\n').collect();
    assert_eq!(lines.len(), 65);
    assert_eq!(lines[64], "");
    for line in &lines[..64] {
        assert_eq!(line.chars().count(), 64);
        assert!(line.chars().all(|sign| sign == '\u{25FB}'));
    }
}

#[test]
fn render_of_two_seven_starts_with_its_pattern() {
    let universe = Universe::new(InitMode::TwoSeven);
    let text = universe.render();
    let first: String = text.chars().take(10).collect();
    assert_eq!(
        first,
        "\u{25FC}\u{25FB}\u{25FC}\u{25FB}\u{25FC}\u{25FB}\u{25FC}\u{25FC}\u{25FC}\u{25FB}"
    );
    assert_eq!(text.chars().count(), 64 * 65);
    assert_eq!(text.chars().nth(64), Some('\n'));
    assert_eq!(text.chars().filter(|sign| *sign == '\u{25FC}').count(), 2341);
    assert_eq!(text.chars().filter(|sign| *sign == '\n').count(), 64);
}

#[test]
fn render_does_not_change_the_universe() {
    let universe = Universe::new(InitMode::TwoSeven);
    let before = universe.get_cells().to_vec();
    let first = universe.render();
    let second = universe.render();
    assert_eq!(first, second);
    assert_eq!(universe.get_cells(), &before[..]);
}

#[test]
fn render_without_rows_is_empty() {
    let mut universe = Universe::new(InitMode::Empty);
    universe.set_height(0);
    assert_eq!(universe.render(), "");
}

#[test]
fn render_without_columns_has_one_empty_line_for_each_row() {
    let mut universe = Universe::new(InitMode::Empty);
    universe.set_height(3);
    universe.set_width(0);
    assert_eq!(universe.render(), "\n\n\n");
}
