use gem_endgame::client::{ContractPrices, MarketWindow, PricesState, TokenInfo, TokensMap};
use gem_endgame::mid_cross_tracker::{LeadSide, MidCrossTracker};
use gem_endgame::num::Num;
use gem_endgame::strategy::SpotSignalSnapshot;

fn n(x: f64) -> Num {
    Num::from_bits(x.to_bits())
}

fn test_market() -> MarketWindow {
    MarketWindow {
        id: "1".to_string(),
        slug: "test".to_string(),
        question: "test".to_string(),
        asset: "BTC".to_string(),
        interval: "15m".to_string(),
        start_time: "2026-01-01T00:00:00Z".to_string(),
        end_time: "2026-01-01T00:15:00Z".to_string(),
        price_to_beat: Some(n(100_000.0)),
        tokens: TokensMap {
            up: TokenInfo {
                token_id: "up".to_string(),
                outcome_name: "UP".to_string(),
            },
            down: TokenInfo {
                token_id: "down".to_string(),
                outcome_name: "DOWN".to_string(),
            },
        },
    }
}

fn prices(up_bid: f64, up_ask: f64, dn_bid: f64, dn_ask: f64) -> PricesState {
    PricesState {
        up: ContractPrices::top(n(up_bid), n(up_ask)),
        down: ContractPrices::top(n(dn_bid), n(dn_ask)),
    }
}

#[test]
fn no_tracking_before_arm_threshold() {
    let mut tracker = MidCrossTracker::new();
    let market = test_market();
    let event = tracker.observe_tick(
        1,
        &market,
        &prices(0.62, 0.64, 0.36, 0.38),
        840,
        n(40.0),
        Some(n(100_000.0)),
        SpotSignalSnapshot::default(),
        0,
    );
    assert!(event.is_none());
    assert!(!tracker.snapshot(1).armed);
}

#[test]
fn arms_at_eight_percent_with_init_event() {
    let mut tracker = MidCrossTracker::new();
    let market = test_market();
    let event = tracker.observe_tick(
        1,
        &market,
        &prices(0.62, 0.64, 0.36, 0.38),
        828,
        n(42.5),
        Some(n(100_000.0)),
        SpotSignalSnapshot::default(),
        0,
    )
    .expect("armed_init");
    assert_eq!(event.event, "armed_init");
    assert_eq!(event.to_side, LeadSide::Up);
    assert_eq!(event.cross_count, 0);
    let snap = tracker.snapshot(1);
    assert!(snap.armed);
    assert_eq!(snap.current_side, Some(LeadSide::Up));
}

#[test]
fn flip_increments_cross_count() {
    let mut tracker = MidCrossTracker::new();
    let market = test_market();
    tracker.observe_tick(
        1,
        &market,
        &prices(0.62, 0.64, 0.36, 0.38),
        828,
        n(40.0),
        None,
        SpotSignalSnapshot::default(),
        0,
    );
    let event = tracker
        .observe_tick(
            1,
            &market,
            &prices(0.36, 0.38, 0.62, 0.64),
            700,
            n(41.0),
            None,
            SpotSignalSnapshot::default(),
            0,
        )
        .expect("mid_cross");
    assert_eq!(event.event, "mid_cross");
    assert_eq!(event.from_side, Some(LeadSide::Up));
    assert_eq!(event.to_side, LeadSide::Down);
    assert_eq!(event.cross_count, 1);
}

#[test]
fn significant_only_when_peak_gap_large() {
    let mut tracker = MidCrossTracker::new();
    let market = test_market();
    tracker.observe_tick(
        1,
        &market,
        &prices(0.62, 0.64, 0.36, 0.38),
        828,
        n(40.0),
        None,
        SpotSignalSnapshot::default(),
        0,
    );
    let event = tracker
        .observe_tick(
            1,
            &market,
            &prices(0.36, 0.38, 0.62, 0.64),
            700,
            n(41.0),
            None,
            SpotSignalSnapshot::default(),
            0,
        )
        .expect("mid_cross");
    assert!(event.is_significant);
    assert_eq!(event.significant_cross_count, 1);
}

#[test]
fn noise_flip_not_significant() {
    let mut tracker = MidCrossTracker::new();
    let market = test_market();
    tracker.observe_tick(
        1,
        &market,
        &prices(0.51, 0.53, 0.47, 0.49),
        828,
        n(40.0),
        None,
        SpotSignalSnapshot::default(),
        0,
    );
    let event = tracker
        .observe_tick(
            1,
            &market,
            &prices(0.47, 0.49, 0.51, 0.53),
            700,
            n(41.0),
            None,
            SpotSignalSnapshot::default(),
            0,
        )
        .expect("mid_cross");
    assert!(!event.is_significant);
    assert_eq!(event.significant_cross_count, 0);
}

#[test]
fn tie_preserves_previous_side() {
    let mut tracker = MidCrossTracker::new();
    let market = test_market();
    tracker.observe_tick(
        1,
        &market,
        &prices(0.62, 0.64, 0.36, 0.38),
        828,
        n(40.0),
        None,
        SpotSignalSnapshot::default(),
        0,
    );
    let event = tracker.observe_tick(
        1,
        &market,
        &prices(0.50, 0.50, 0.50, 0.50),
        700,
        n(41.0),
        None,
        SpotSignalSnapshot::default(),
        0,
    );
    assert!(event.is_none());
    assert_eq!(tracker.snapshot(1).current_side, Some(LeadSide::Up));
}

#[test]
fn counts_never_fall() {
    let mut tracker = MidCrossTracker::new();
    let market = test_market();
    let mut last = 0;
    for i in 0..6 {
        let p = if i % 2 == 0 { prices(0.62, 0.64, 0.36, 0.38) } else { prices(0.36, 0.38, 0.62, 0.64) };
        tracker.observe_tick(7, &market, &p, 800 - i, n(40.0), None, SpotSignalSnapshot::default(), 0);
        let s = tracker.snapshot(7);
        assert!(s.cross_count >= last);
        assert!(s.significant_cross_count <= s.cross_count);
        last = s.cross_count;
    }
    assert_eq!(last, 5);
    let done = tracker.finalize_window(7);
    assert_eq!(done.cross_count, 5);
    tracker.remove_window(7);
    assert!(!tracker.snapshot(7).armed);
}

#[test]
fn a_tick_touches_its_own_window_from_the_arming_on() {
    let mut a = MidCrossTracker::new();
    let mut b = MidCrossTracker::new();
    let market = test_market();
    let quiet = SpotSignalSnapshot::default();
    let fast = SpotSignalSnapshot { smoothed_velocity_usd_per_sec: Some(n(9.0)), ..quiet };
    for (secs, up) in [(840, 0.7), (800, 0.7), (700, 0.3), (600, 0.8)] {
        let book = prices(up - 0.01, up + 0.01, 0.99 - up, 1.01 - up);
        let before = format!("{:?}", a.snapshot(7));
        let e = a.observe_tick(1, &market, &book, secs, n(40.0), Some(n(100_000.0)), quiet, 0);
        let g = b.observe_tick(1, &market, &book, secs, n(40.0), None, fast, 123_456);
        assert_eq!(format!("{:?}", e), format!("{:?}", g));
        assert_eq!(format!("{:?}", a.snapshot(1)), format!("{:?}", b.snapshot(1)));
        assert_eq!(format!("{:?}", a.snapshot(7)), before);
        assert_eq!(e.is_none(), secs == 840);
    }
    assert_eq!(a.snapshot(1).cross_count, 2);
}
