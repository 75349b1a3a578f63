use rand::rngs::StdRng;
use rand::SeedableRng;

use quote_stream::clock::{current_time_ms, millis_to_u64};
use quote_stream::market::{
    draw_volume, generator_action, is_major_ticker, volume_from_draw, volume_span_of, GeneratorAction,
};

#[test]
fn major_tickers() {
    for t in ["AAPL", "MSFT", "NVDA", "TSLA", "GOOGL"] {
        assert!(is_major_ticker(t));
    }
    for t in ["aapl", "GOOG", "IBM", "", "AAPLX"] {
        assert!(!is_major_ticker(t));
    }
}

#[test]
fn volume_rule() {
    assert_eq!(volume_from_draw("AAPL", 0), 1000);
    assert_eq!(volume_from_draw("AAPL", 4999), 5999);
    assert_eq!(volume_from_draw("IBM", 0), 100);
    assert_eq!(volume_from_draw("IBM", 999), 1099);
}

#[test]
fn drawn_volumes_stay_in_range() {
    let mut rng = StdRng::seed_from_u64(7);
    for _ in 0..2000 {
        let v = draw_volume("NVDA", &mut rng);
        assert!((1000..6000).contains(&v));
        let w = draw_volume("XYZ", &mut rng);
        assert!((100..1100).contains(&w));
    }
}

#[test]
fn clock_reads_after_the_epoch() {
    let a = current_time_ms().expect("the clock reads after 1970");
    let b = current_time_ms().expect("the clock reads after 1970");
    assert!(a > 1_600_000_000_000);
    assert!(b + 1000 >= a);
}

#[test]
fn volume_spans() {
    assert_eq!(volume_span_of("GOOGL"), 5000);
    assert_eq!(volume_span_of("GOOG"), 1000);
}

#[test]
fn drawn_volumes_spread_over_the_range() {
    let mut rng = StdRng::seed_from_u64(11);
    let vols: Vec<u32> = (0..500).map(|_| draw_volume("AAPL", &mut rng)).collect();
    assert!(vols.iter().any(|&v| v >= 3000));
    assert!(vols.iter().any(|&v| v < 2000));
}

#[test]
fn generator_round() {
    assert_eq!(generator_action(0, 3), GeneratorAction::Quote(0));
    assert_eq!(generator_action(2, 3), GeneratorAction::Quote(2));
    assert_eq!(generator_action(3, 3), GeneratorAction::Sleep);
    assert_eq!(generator_action(0, 0), GeneratorAction::Sleep);
}

#[test]
fn millis_cut_to_64_bits() {
    assert_eq!(millis_to_u64(1_713_500_000_000), 1_713_500_000_000);
    assert_eq!(millis_to_u64((1u128 << 64) + 5), 5);
    assert_eq!(millis_to_u64(u64::MAX as u128), u64::MAX);
}
