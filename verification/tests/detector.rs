use mev_indexer::indexer::detector::{detect_sandwich, CandidateWindow, SwapEvent};
use mev_indexer::indexer::error::Error;

fn event(source_byte: u8, amount_in: i128, amount_out: i128, index: usize) -> SwapEvent {
    SwapEvent {
        source: vec![source_byte; 32],
        amount_in,
        amount_out,
        transaction_index: index,
    }
}

#[test]
fn different_sources_are_not_a_sandwich() {
    let window = CandidateWindow {
        frontrun: event(1, 100, 50, 0),
        victim: event(2, 50, 40, 1),
        backrun: event(3, 50, 130, 2),
    };
    let r = detect_sandwich(&window, 77);
    assert!(matches!(r, Err(Error::NotASandwich)));
}

#[test]
fn broken_round_trip_is_incomplete() {
    let window = CandidateWindow {
        frontrun: event(1, 100, 50, 0),
        victim: event(2, 50, 40, 1),
        backrun: event(1, 49, 130, 2),
    };
    let r = detect_sandwich(&window, 77);
    assert!(matches!(r, Err(Error::IncompleteSandwich)));
}

#[test]
fn valid_window_reports_exact_profit() {
    // frontrun (in=100, out=50), victim (in=50, out=40), backrun (in=50,
    // out=130), same wallet on the outer legs: profit 130 - 100 = 30
    let window = CandidateWindow {
        frontrun: event(1, 100, 50, 0),
        victim: event(2, 50, 40, 1),
        backrun: event(1, 50, 130, 2),
    };
    let finding = detect_sandwich(&window, 77).unwrap();
    assert_eq!(finding.attacker, vec![1u8; 32]);
    assert_eq!(finding.victim, vec![2u8; 32]);
    assert_eq!(finding.profit, 30);
    assert_eq!(finding.block, 77);
    // the three roles reference three distinct transactions
    assert_ne!(window.frontrun.transaction_index, window.victim.transaction_index);
    assert_ne!(window.victim.transaction_index, window.backrun.transaction_index);
    assert_ne!(window.frontrun.transaction_index, window.backrun.transaction_index);
}

#[test]
fn non_positive_profit_is_still_reported() {
    let window = CandidateWindow {
        frontrun: event(1, 100, 50, 0),
        victim: event(2, 50, 40, 1),
        backrun: event(1, 50, 90, 2),
    };
    let finding = detect_sandwich(&window, 0).unwrap();
    assert_eq!(finding.profit, -10);
}

#[test]
fn profit_is_exact_for_full_range_amounts() {
    let max = u64::MAX as i128;
    let window = CandidateWindow {
        frontrun: event(1, max, 1, 0),
        victim: event(2, 1, 1, 1),
        backrun: event(1, 1, 0, 2),
    };
    let finding = detect_sandwich(&window, 0).unwrap();
    assert_eq!(finding.profit, -max);
}
