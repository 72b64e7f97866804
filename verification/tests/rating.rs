use bops::rating::update_stats;

#[test]
fn main_test_update_stats() {
    let mut first_score = 1500;
    let mut first_wins = 0;
    let mut first_losses = 0;
    let mut second_score = 1500;
    let mut second_wins = 0;
    let mut second_losses = 0;
    update_stats(
        &mut first_score,
        &mut first_wins,
        &mut second_score,
        &mut second_losses,
    );
    assert_eq!(
        (
            first_score,
            first_wins,
            first_losses,
            second_score,
            second_wins,
            second_losses
        ),
        (1516, 1, 0, 1484, 0, 1)
    );

    update_stats(
        &mut first_score,
        &mut first_wins,
        &mut second_score,
        &mut second_losses,
    );
    assert_eq!(
        (
            first_score,
            first_wins,
            first_losses,
            second_score,
            second_wins,
            second_losses
        ),
        (1530, 2, 0, 1470, 0, 2)
    );

    update_stats(
        &mut second_score,
        &mut second_wins,
        &mut first_score,
        &mut first_losses,
    );
    assert_eq!(
        (
            first_score,
            first_wins,
            first_losses,
            second_score,
            second_wins,
            second_losses
        ),
        (1512, 2, 1, 1488, 1, 2)
    );
}
