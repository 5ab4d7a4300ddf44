use bacak_compositor::focus::FocusHistory;

#[test]
fn promote_pushes_to_front_and_dedupes() {
    let mut h = FocusHistory::new();
    h.promote(1);
    h.promote(2);
    h.promote(3);
    h.promote(1); // moved, not duplicated
    assert_eq!(h.mru_snapshot(), vec![1, 3, 2]);
}

#[test]
fn forget_removes_from_history() {
    let mut h = FocusHistory::new();
    h.promote(1);
    h.promote(2);
    h.forget(1);
    assert_eq!(h.mru_snapshot(), vec![2]);
}

#[test]
fn cycle_order_prefers_mru_then_appends_unseen() {
    let mut h = FocusHistory::new();
    h.promote(3);
    h.promote(1);
    // Currently visible: 1, 2, 3, 4. 4 has never been focused.
    let order = h.cycle_order(&[1, 2, 3, 4]);
    // 1 first (most recent), 3 next (older), then 2 and 4 in
    // caller's iteration order.
    assert_eq!(order, vec![1, 3, 2, 4]);
}

#[test]
fn cycle_order_drops_invisible_mru_entries() {
    let mut h = FocusHistory::new();
    h.promote(1);
    h.promote(2);
    h.promote(3);
    // 2 isn't visible anymore — it should be filtered out, not
    // appended to the end.
    let order = h.cycle_order(&[1, 3, 4]);
    assert_eq!(order, vec![3, 1, 4]);
}

#[test]
fn start_cycle_needs_two_candidates() {
    let mut h = FocusHistory::new();
    assert!(h.start_cycle(vec![], false, 0).is_none());
    assert!(h.start_cycle(vec![1], false, 0).is_none());
    assert!(!h.is_cycling());
}

#[test]
fn start_cycle_targets_second_entry_forward() {
    let mut h = FocusHistory::new();
    let first = h.start_cycle(vec![10, 20, 30], false, 0).unwrap();
    assert_eq!(first, 20);
    assert!(h.is_cycling());
    assert_eq!(h.current_cycle_window(), Some(20));
}

#[test]
fn start_cycle_reverse_targets_last_entry() {
    let mut h = FocusHistory::new();
    let first = h.start_cycle(vec![10, 20, 30], true, 0).unwrap();
    assert_eq!(first, 30);
}

#[test]
fn advance_wraps_in_both_directions() {
    let mut h = FocusHistory::new();
    h.start_cycle(vec![10, 20, 30], false, 0).unwrap(); // at index 1 → 20
    assert_eq!(h.advance_cycle(false), Some(30));
    assert_eq!(h.advance_cycle(false), Some(10)); // wrapped
    assert_eq!(h.advance_cycle(false), Some(20));
    assert_eq!(h.advance_cycle(true), Some(10)); // reverse wrap
}

#[test]
fn promote_is_no_op_during_cycle() {
    let mut h = FocusHistory::new();
    h.promote(1);
    h.promote(2);
    h.start_cycle(vec![2, 1], false, 0).unwrap();
    // While cycling, promote() should not mutate.
    h.promote(1);
    // mru still has [2, 1].
    assert_eq!(h.mru_snapshot(), vec![2, 1]);
}

#[test]
fn commit_makes_current_selection_mru_top() {
    let mut h = FocusHistory::new();
    h.promote(1);
    h.promote(2);
    h.promote(3);
    // mru = [3, 2, 1]. Cycle: candidates [3, 2, 1], starts at 2.
    h.start_cycle(vec![3, 2, 1], false, 0).unwrap();
    h.advance_cycle(false); // → 1
    h.commit_cycle();
    assert!(!h.is_cycling());
    assert_eq!(h.mru_snapshot(), vec![1, 3, 2]);
}

#[test]
fn cancel_returns_started_from_and_clears_cycle() {
    let mut h = FocusHistory::new();
    h.promote(1);
    h.promote(2);
    h.start_cycle(vec![2, 1], false, 0).unwrap(); // started_from = 2
    h.advance_cycle(false); // currently at 2 again (wrapped)
    let prev = h.cancel_cycle();
    assert_eq!(prev, Some(2));
    assert!(!h.is_cycling());
    // mru unchanged by the cycle.
    assert_eq!(h.mru_snapshot(), vec![2, 1]);
}

#[test]
fn most_recent_matching_respects_mru_order() {
    let mut h = FocusHistory::new();
    h.promote(1);
    h.promote(2);
    h.promote(3); // mru = [3, 2, 1]
    // First match scanning most-recent-first.
    assert_eq!(h.most_recent_matching(|id| id == 1 || id == 2), Some(2));
    assert_eq!(h.most_recent_matching(|id| id == 1), Some(1));
    assert_eq!(h.most_recent_matching(|_| false), None);
    // A re-focus moves it to the front and changes the pick.
    h.promote(1); // mru = [1, 3, 2]
    assert_eq!(h.most_recent_matching(|id| id == 1 || id == 2), Some(1));
}

#[test]
fn forget_strips_dead_entry_before_cursor() {
    // mru = [3, 2, 1], start cycle at index 1 = 2. Kill 3 (which
    // sits before the cursor) and the index should shift left so
    // the *same* logical entry stays "current".
    let mut h = FocusHistory::new();
    h.promote(1);
    h.promote(2);
    h.promote(3);
    h.start_cycle(vec![3, 2, 1], false, 0).unwrap();
    assert_eq!(h.current_cycle_window(), Some(2));
    h.forget(3);
    assert!(h.is_cycling());
    assert_eq!(h.current_cycle_window(), Some(2));
    assert_eq!(h.cycle_candidates(), Some(&[2, 1][..]));
}

#[test]
fn forget_strips_dead_entry_after_cursor() {
    // Killing an entry past the cursor must not move the cursor.
    let mut h = FocusHistory::new();
    h.promote(1);
    h.promote(2);
    h.promote(3);
    h.start_cycle(vec![3, 2, 1], false, 0).unwrap();
    assert_eq!(h.current_cycle_window(), Some(2));
    h.forget(1);
    assert_eq!(h.current_cycle_window(), Some(2));
    assert_eq!(h.cycle_candidates(), Some(&[3, 2][..]));
}

#[test]
fn forget_kills_cycle_when_only_one_remains() {
    let mut h = FocusHistory::new();
    h.promote(1);
    h.promote(2);
    h.start_cycle(vec![2, 1], false, 0).unwrap();
    h.forget(1);
    assert!(!h.is_cycling(), "cycle should die with <2 candidates left");
    assert_eq!(h.cycle_candidates(), None);
}

#[test]
fn forget_current_at_tail_wraps_to_start() {
    // Candidates [3, 2, 1], index 2 (= 1 is current). Killing 1
    // leaves [3, 2] and index 2 is out of bounds → wrap to 0.
    let mut h = FocusHistory::new();
    h.promote(1);
    h.promote(2);
    h.promote(3);
    let mut cycle_starter = vec![3, 2, 1];
    let first = h.start_cycle(cycle_starter.clone(), false, 0).unwrap();
    assert_eq!(first, 2);
    // Advance once to land on 1 (the tail).
    h.advance_cycle(false);
    assert_eq!(h.current_cycle_window(), Some(1));
    h.forget(1);
    assert!(h.is_cycling());
    assert_eq!(h.current_cycle_window(), Some(3));
    // Silence the unused-write lint.
    cycle_starter.clear();
}

#[test]
fn forget_current_in_middle_keeps_index_pointing_at_next() {
    // Candidates [3, 2, 1], cursor at index 1 (= 2). Killing 2
    // shifts what was at index 2 (= 1) down into index 1. We end
    // up with the same numeric index pointing at "the next entry"
    // — i.e. the cycle naturally steps forward on death.
    let mut h = FocusHistory::new();
    h.promote(1);
    h.promote(2);
    h.promote(3);
    h.start_cycle(vec![3, 2, 1], false, 0).unwrap();
    assert_eq!(h.current_cycle_window(), Some(2));
    h.forget(2);
    assert!(h.is_cycling());
    assert_eq!(h.current_cycle_window(), Some(1));
    assert_eq!(h.cycle_candidates(), Some(&[3, 1][..]));
}

#[test]
fn a_cycle_stays_on_its_output() {
    let mut h = FocusHistory::new();
    assert_eq!(h.cycle_output(), None);
    h.start_cycle(vec![10, 20], false, 3);
    assert_eq!(h.cycle_output(), Some(3));
    h.advance_cycle(false);
    assert_eq!(h.cycle_output(), Some(3));
    h.cancel_cycle();
    assert_eq!(h.cycle_output(), None);
}

#[test]
fn a_full_turn_previews_each_window_once() {
    for reverse in [false, true] {
        let mut h = FocusHistory::new();
        h.promote(9);
        let all = vec![5, 6, 7, 8];
        let start = h.start_cycle(all.clone(), reverse, 2);
        let mut seen = vec![];
        for _ in 0..all.len() {
            let w = h.advance_cycle(reverse);
            assert_eq!(w, h.current_cycle_window());
            seen.push(w.unwrap());
        }
        assert_eq!(h.current_cycle_window(), start);
        assert_eq!(seen.last().copied(), start);
        seen.sort();
        assert_eq!(seen, all);
        // There and back again.
        h.advance_cycle(reverse);
        assert_eq!(h.advance_cycle(!reverse), start);
        assert_eq!(h.cycle_candidates(), Some(&all[..]));
        assert_eq!(h.cycle_output(), Some(2));
        assert_eq!(h.mru_snapshot(), vec![9]);
    }
}
