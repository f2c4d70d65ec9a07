use tetris::highscores::check_ranking;
use tetris::update_vec;

#[test]
fn short_ranking_takes_any_value() {
    let mut v: Vec<u32> = Vec::new();
    assert!(update_vec(&mut v, 30));
    assert_eq!(v, vec![30]);
    assert!(update_vec(&mut v, 10));
    assert_eq!(v, vec![10, 30]);
    assert!(update_vec(&mut v, 20));
    assert_eq!(v, vec![10, 20, 30]);
    assert!(update_vec(&mut v, 40));
    assert_eq!(v, vec![10, 20, 30, 40]);
    assert!(update_vec(&mut v, 0));
    assert_eq!(v, vec![0, 10, 20, 30, 40]);
}

#[test]
fn short_ranking_takes_a_value_it_already_holds() {
    let mut v = vec![5, 5];
    assert!(update_vec(&mut v, 5));
    assert_eq!(v, vec![5, 5, 5]);
}

#[test]
fn full_ranking_drops_its_lowest_entry() {
    let mut v = vec![1, 2, 3, 4, 5];
    assert!(update_vec(&mut v, 10));
    assert_eq!(v, vec![2, 3, 4, 5, 10]);
    assert!(update_vec(&mut v, 4));
    assert_eq!(v, vec![3, 4, 4, 5, 10]);
    assert!(update_vec(&mut v, 4));
    assert_eq!(v, vec![4, 4, 4, 5, 10]);
}

#[test]
fn full_ranking_refuses_a_value_that_beats_nothing() {
    let mut v = vec![3, 4, 4, 5, 10];
    assert!(!update_vec(&mut v, 3));
    assert_eq!(v, vec![3, 4, 4, 5, 10]);
    assert!(!update_vec(&mut v, 0));
    assert_eq!(v, vec![3, 4, 4, 5, 10]);
}

#[test]
fn full_ranking_takes_the_highest_value() {
    let mut v = vec![0, 0, 0, 0, 0];
    assert!(update_vec(&mut v, u32::MAX));
    assert_eq!(v, vec![0, 0, 0, 0, u32::MAX]);
    assert!(!update_vec(&mut v, 0));
}

#[test]
fn ranking_stays_sorted_and_capped() {
    let mut v: Vec<u32> = Vec::new();
    for value in [7u32, 3, 9, 1, 9, 4, 12, 0, 8, 8, 2] {
        update_vec(&mut v, value);
        assert!(v.len() <= 5);
        assert!(check_ranking(&v));
    }
    assert_eq!(v, vec![8, 8, 9, 9, 12]);
}

#[test]
fn check_ranking_tells_rankings_from_other_lists() {
    assert!(check_ranking(&vec![]));
    assert!(check_ranking(&vec![4]));
    assert!(check_ranking(&vec![1, 1, 2, 3, 5]));
    assert!(!check_ranking(&vec![2, 1]));
    assert!(!check_ranking(&vec![1, 2, 3, 5, 4]));
    assert!(!check_ranking(&vec![1, 2, 3, 4, 5, 6]));
}

#[test]
fn record_game_starts_new_rankings_without_kept_ones() {
    let record = tetris::highscores::record_game(None, 42, 3);
    assert_eq!(record.highscores, vec![42]);
    assert_eq!(record.lines_sent, vec![3]);
    assert!(record.new_highscore);
    assert!(record.new_lines_sent);
}

#[test]
fn record_game_enters_the_result_into_kept_rankings() {
    let kept = Some((vec![10, 20, 30, 40, 50], vec![1, 2, 3]));
    let record = tetris::highscores::record_game(kept, 35, 0);
    assert_eq!(record.highscores, vec![20, 30, 35, 40, 50]);
    assert_eq!(record.lines_sent, vec![0, 1, 2, 3]);
    assert!(record.new_highscore);
    assert!(record.new_lines_sent);
}

#[test]
fn record_game_reports_what_did_not_change() {
    let kept = Some((vec![10, 20, 30, 40, 50], vec![4, 5, 6, 7, 8]));
    let record = tetris::highscores::record_game(kept, 10, 9);
    assert_eq!(record.highscores, vec![10, 20, 30, 40, 50]);
    assert_eq!(record.lines_sent, vec![5, 6, 7, 8, 9]);
    assert!(!record.new_highscore);
    assert!(record.new_lines_sent);
}

#[test]
fn record_game_replaces_what_is_no_pair_of_rankings() {
    let record = tetris::highscores::record_game(Some((vec![3, 1], vec![1])), 7, 2);
    assert_eq!(record.highscores, vec![7]);
    assert_eq!(record.lines_sent, vec![2]);
    assert!(record.new_highscore && record.new_lines_sent);
    let record = tetris::highscores::record_game(Some((vec![1], vec![1, 2, 3, 4, 5, 6])), 7, 2);
    assert_eq!(record.highscores, vec![7]);
    assert_eq!(record.lines_sent, vec![2]);
}
