use wpass::search::PasswordSearch;

#[test]
fn first_reported_match_wins() {
    let mut s = PasswordSearch::new(3);
    s.record_failure(0);
    s.record_success(1);
    assert_eq!(s.winner(), Some(1));
}

#[test]
fn match_at_any_position_yields_a_winner() {
    // results arrive out of order; the winner is still observed exactly once
    let mut s = PasswordSearch::new(4);
    s.record_failure(3);
    s.record_failure(0);
    s.record_success(2);
    s.record_failure(1);
    assert_eq!(s.winner(), Some(2));
    assert!(!s.all_failed());
}

#[test]
fn a_second_match_does_not_displace_the_winner() {
    let mut s = PasswordSearch::new(3);
    s.record_success(2);
    s.record_success(0);
    assert_eq!(s.winner(), Some(2));
}

#[test]
fn exhaustion_without_match_has_no_winner() {
    let mut s = PasswordSearch::new(3);
    s.record_failure(1);
    s.record_failure(0);
    s.record_failure(2);
    assert_eq!(s.winner(), None);
    assert!(s.all_failed());
}

#[test]
fn empty_search_is_exhausted_at_once() {
    let s = PasswordSearch::new(0);
    assert_eq!(s.candidate_count(), 0);
    assert_eq!(s.winner(), None);
    assert!(s.all_failed());
}
