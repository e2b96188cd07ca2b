use cosmic_cults::utility::select_best_action;

fn bits(xs: &[f32]) -> Vec<u32> {
    xs.iter().map(|x| x.to_bits()).collect()
}

#[test]
fn the_highest_positive_score_wins() {
    assert_eq!(select_best_action(&bits(&[0.2, 0.9, 0.5])), Some(1));
    assert_eq!(select_best_action(&bits(&[0.7, 0.3, 0.7])), Some(0));
}

#[test]
fn no_action_without_a_positive_score() {
    assert_eq!(select_best_action(&bits(&[])), None);
    assert_eq!(select_best_action(&bits(&[0.0, -1.0])), None);
    assert_eq!(select_best_action(&bits(&[-0.0])), None);
    assert_eq!(select_best_action(&bits(&[f32::MIN_POSITIVE, 0.0])), Some(0));
}
