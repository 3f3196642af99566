use wordle::statistics::Statistics;

#[test]
fn counts_come_back_in_order() {
    let stats = Statistics::new([1, 2, 3, 4, 5, 6, 7]);
    assert_eq!(stats.counters(), [1, 2, 3, 4, 5, 6, 7]);
    for attempts in 1..=6 {
        assert_eq!(stats.get_wins(attempts), attempts);
    }
    assert_eq!(stats.get_games_lost(), 7);
    assert_eq!(stats.get_last_result(), None);
    assert!(!stats.is_on_screen());
}

#[test]
fn games_played_is_the_sum() {
    assert_eq!(Statistics::new([1, 2, 3, 4, 5, 6, 7]).get_games_played(), 28);
    assert_eq!(Statistics::new([0; 7]).get_games_played(), 0);
    assert_eq!(
        Statistics::new([u32::MAX; 7]).get_games_played(),
        7 * (u32::MAX as u64)
    );
}

#[test]
fn win_rate_is_rounded_percentage() {
    assert_eq!(Statistics::new([0; 7]).get_win_rate(), None);
    assert_eq!(Statistics::new([0, 0, 1, 0, 0, 0, 2]).get_win_rate(), Some(33));
    assert_eq!(Statistics::new([0, 0, 2, 0, 0, 0, 1]).get_win_rate(), Some(67));
    assert_eq!(Statistics::new([1, 0, 0, 0, 0, 0, 7]).get_win_rate(), Some(13));
    assert_eq!(Statistics::new([0, 0, 0, 0, 0, 0, 9]).get_win_rate(), Some(0));
    assert_eq!(Statistics::new([3, 0, 0, 0, 0, 4, 0]).get_win_rate(), Some(100));
    assert_eq!(Statistics::new([u32::MAX; 7]).get_win_rate(), Some(86));
}

#[test]
fn most_wins_is_the_largest_bucket() {
    assert_eq!(Statistics::new([1, 9, 3, 4, 5, 6, 70]).get_most_wins(), 9);
    assert_eq!(Statistics::new([0, 0, 0, 0, 0, 8, 0]).get_most_wins(), 8);
    assert_eq!(Statistics::new([0, 0, 0, 0, 0, 0, 5]).get_most_wins(), 0);
}

#[test]
fn bar_width_is_in_proportion() {
    let stats = Statistics::new([0, 1, 2, 4, 3, 0, 9]);
    assert_eq!(stats.bar_width(4, 560, 30), 560);
    assert_eq!(stats.bar_width(3, 560, 30), 280);
    assert_eq!(stats.bar_width(5, 560, 30), 420);
    assert_eq!(stats.bar_width(2, 560, 30), 140);
    assert_eq!(stats.bar_width(1, 560, 30), 30);
    assert_eq!(stats.bar_width(2, 100, 30), 30);
}

#[test]
fn bar_width_without_wins_is_the_narrowest() {
    let stats = Statistics::new([0, 0, 0, 0, 0, 0, 3]);
    for attempts in 1..=6 {
        assert_eq!(stats.bar_width(attempts, 560, 30), 30);
    }
}

#[test]
fn win_is_recorded_in_its_bucket() {
    for attempts in 1..=6u32 {
        let mut stats = Statistics::new([10, 20, 30, 40, 50, 60, 70]);
        let stored = stats.update_stats(Some(attempts));
        let mut expected = [10, 20, 30, 40, 50, 60, 70];
        expected[attempts as usize - 1] += 1;
        assert_eq!(stored, expected);
        assert_eq!(stats.counters(), expected);
        assert_eq!(stats.get_games_played(), 281);
        assert_eq!(stats.get_last_result(), Some(attempts as u8));
        assert!(stats.is_last_result(attempts));
        assert!(!stats.is_last_result(attempts % 6 + 1));
    }
}

#[test]
fn loss_is_recorded_and_keeps_last_result() {
    let mut stats = Statistics::new([0, 0, 0, 0, 0, 0, 0]);
    assert_eq!(stats.update_stats(None), [0, 0, 0, 0, 0, 0, 1]);
    assert_eq!(stats.get_last_result(), None);
    stats.update_stats(Some(2));
    assert_eq!(stats.update_stats(None), [0, 1, 0, 0, 0, 0, 2]);
    assert_eq!(stats.get_last_result(), Some(2));
    assert_eq!(stats.get_games_played(), 3);
}

#[test]
fn overlay_opens_and_closes() {
    let mut stats = Statistics::new([1, 2, 3, 4, 5, 6, 7]);
    stats.put_on_screen();
    assert!(stats.is_on_screen());
    stats.put_on_screen();
    assert!(stats.is_on_screen());
    stats.remove_from_screen();
    assert!(!stats.is_on_screen());
    assert_eq!(stats.counters(), [1, 2, 3, 4, 5, 6, 7]);
}

#[test]
fn room_is_there_until_a_count_is_full() {
    assert!(Statistics::new([0; 7]).can_record());
    assert!(Statistics::new([u32::MAX - 1; 7]).can_record());
    for i in 0..7 {
        let mut counts = [5u32; 7];
        counts[i] = u32::MAX;
        assert!(!Statistics::new(counts).can_record());
    }
}
