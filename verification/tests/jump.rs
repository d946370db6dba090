use cepheus_trader::jump::{resolve, JumpQuality};

#[test]
fn jump_duration_is_the_ce_148_plus_six_dice_hours() {
    for entropy in 0..100 {
        let seconds = resolve(entropy, 0, 0, 0, false, false).duration_seconds;
        assert!(((148 + 6)..=(148 + 36)).contains(&(seconds / 3600)));
    }
}

#[test]
fn source_modifiers_move_the_exact_success_total() {
    let clean = resolve(42, 2, 0, 0, false, false);
    let impaired = resolve(42, 2, 1, 2, true, false);
    assert_eq!(clean.total - impaired.total, 7);
    assert!(matches!(
        resolve(42, 20, 0, 0, false, true).quality,
        JumpQuality::Misjump { .. }
    ));
}
