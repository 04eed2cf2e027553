use uniswap_backend::budget::{
    callee_deadline, slice, Budget, ACCOUNTS_BUDGET, BALANCES_BUDGET, BUILD_BUDGET, CANCEL_BUDGET,
    FEES_BUDGET, HISTORY_BUDGET, MILLI, MIN_SLICE, PROBE_BUDGET, QUOTE_BUDGET, READ_BUDGET, SECOND,
    SENDER_BUDGET, STATUS_BUDGET, SWAP_BUDGET, TOKENS_BUDGET, VERDICT_BUDGET, VIEW_CALL,
    VIEW_SWAP_CALL,
};

#[test]
fn every_entry_point_answers_inside_the_views_transport() {
    for b in [
        READ_BUDGET, TOKENS_BUDGET, ACCOUNTS_BUDGET, VERDICT_BUDGET, FEES_BUDGET, BALANCES_BUDGET,
        STATUS_BUDGET, CANCEL_BUDGET, HISTORY_BUDGET,
    ] {
        assert!(b < VIEW_CALL, "{b:?}");
    }
    assert!(QUOTE_BUDGET < VIEW_SWAP_CALL && SWAP_BUDGET < VIEW_SWAP_CALL);
}

#[test]
fn a_build_that_spends_its_whole_allowance_still_leaves_the_sender_time() {
    let left = QUOTE_BUDGET - BUILD_BUDGET;
    assert!(left >= SENDER_BUDGET, "a quote prices even after the slowest build");
    let left = SWAP_BUDGET - PROBE_BUDGET - BUILD_BUDGET;
    assert!(callee_deadline(slice(SWAP_BUDGET, SWAP_BUDGET - left, SENDER_BUDGET).unwrap()).unwrap() > 10_000);
}

#[test]
fn a_grant_never_exceeds_what_is_left_and_a_sliver_is_nothing() {
    let total = 4 * SECOND;
    assert_eq!(slice(total, 0, PROBE_BUDGET), Some(PROBE_BUDGET));
    assert_eq!(slice(total, 3_500 * MILLI, PROBE_BUDGET), Some(500 * MILLI));
    assert_eq!(slice(total, 3_990 * MILLI, PROBE_BUDGET), None);
    assert_eq!(slice(total, 5 * SECOND, PROBE_BUDGET), None);
    assert_eq!(callee_deadline(300 * MILLI), None);
    assert_eq!(callee_deadline(3 * SECOND), Some(2_700));
}

/// The documented allowances: a quote 58 s and a swap 60 s, the build 40 s of them, and a view that
/// waits 62 s for those two and 20 s for everything else.
#[test]
fn the_allowances_are_the_documented_ones() {
    assert_eq!((QUOTE_BUDGET, SWAP_BUDGET), (58 * SECOND, 60 * SECOND));
    assert_eq!(BUILD_BUDGET, 40 * SECOND);
    assert_eq!((VIEW_SWAP_CALL, VIEW_CALL), (62 * SECOND, 20 * SECOND));
}

#[test]
fn the_edge_of_a_grant_is_the_smallest_slice() {
    assert_eq!(slice(SECOND, SECOND - MIN_SLICE, SECOND), Some(MIN_SLICE));
    assert_eq!(slice(SECOND, SECOND - MIN_SLICE + 1, SECOND), None);
    assert_eq!(slice(SECOND, 0, MIN_SLICE - 1), None);
    assert_eq!(callee_deadline(350 * MILLI), Some(50));
    assert_eq!(callee_deadline(350 * MILLI - 1), None);
}

#[test]
fn a_running_allowance_grants_from_what_is_left() {
    let b = Budget::new(3600 * SECOND);
    assert_eq!(b.take(SECOND), Some(SECOND), "an hour is not gone yet");
    assert!(b.elapsed() < 3600 * SECOND);
    assert_eq!(Budget::new(0).take(SECOND), None);
    let earlier = b.elapsed();
    assert!(b.elapsed() >= earlier);
}

#[test]
fn an_allowance_only_shrinks() {
    let grants: Vec<u128> =
        (0..80).map(|i| slice(4 * SECOND, i * 50 * MILLI, 3 * SECOND).unwrap_or(0)).collect();
    assert!(grants.windows(2).all(|w| w[1] <= w[0]));
    assert_eq!((grants[0], grants[20], grants[79]), (3 * SECOND, 3 * SECOND, 50 * MILLI));
}
