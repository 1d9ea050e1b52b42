use game_core::stats::Level;

#[test]
fn test_level_up() {
    let mut level = Level::new();
    assert_eq!(level.current_level, 1);

    let result = level.add_exp(150);
    assert_eq!(result, Some(2));
    assert_eq!(level.current_level, 2);
}

#[test]
fn level_thresholds_follow_the_square_formula() {
    let mut level = Level::new();
    assert_eq!(level.exp_to_next_level, 150);
    assert_eq!(level.add_exp(149), None);
    assert_eq!(level.current_exp, 149);
    assert_eq!(level.add_exp(11), Some(2));
    assert_eq!(level.current_exp, 10);
    assert_eq!(level.exp_to_next_level, 300);
    assert_eq!(level.add_exp(290), Some(3));
    assert_eq!(level.current_exp, 0);
    assert_eq!(level.exp_to_next_level, 550);
}
