use gem_endgame::num::Num;
use gem_endgame::redeem_hold::{evaluate_redeem_hold, expected_move_usd, itm_gap_z, RedeemHoldInput};

fn n(x: f64) -> Num {
    Num::from_bits(x.to_bits())
}

fn f(x: Num) -> f64 {
    f64::from_bits(x.to_bits())
}

fn base_input() -> RedeemHoldInput<'static> {
    RedeemHoldInput {
        side: "UP",
        spot: n(100_500.0),
        ptb: n(100_000.0),
        secs_to_end: 60,
        time_pct: n(92.0),
        current_atr: n(40.0),
        bid: n(0.80),
        fair_prob: n(0.85),
        ptb_crossed: false,
        counter_velocity_against: false,
        cex_velocity_against: false,
    }
}

#[test]
fn holds_itm_deep_late() {
    let decision = evaluate_redeem_hold(&base_input());
    assert!(decision.should_hold);
    assert_eq!(decision.reason, "itm_deep_late");
}

#[test]
fn no_hold_when_distance_shallow() {
    let mut input = base_input();
    input.spot = n(100_020.0);
    let decision = evaluate_redeem_hold(&input);
    assert!(!decision.should_hold);
    assert_eq!(decision.reason, "distance_not_deep");
}

#[test]
fn no_hold_when_otm() {
    let mut input = base_input();
    input.spot = n(99_500.0);
    let decision = evaluate_redeem_hold(&input);
    assert!(!decision.should_hold);
    assert_eq!(decision.reason, "otm");
}

#[test]
fn no_hold_on_counter_velocity() {
    let mut input = base_input();
    input.counter_velocity_against = true;
    let decision = evaluate_redeem_hold(&input);
    assert!(!decision.should_hold);
    assert_eq!(decision.reason, "counter_momentum");
}

#[test]
fn every_ground_against_holding_is_named() {
    let reason = |change: fn(&mut RedeemHoldInput<'static>)| {
        let mut i = base_input();
        change(&mut i);
        let d = evaluate_redeem_hold(&i);
        assert!(!d.should_hold);
        d.reason
    };
    assert_eq!(reason(|i| i.ptb_crossed = true), "ptb_crossed");
    assert_eq!(reason(|i| i.fair_prob = n(0.49)), "salvage_overpay");
    assert_eq!(reason(|i| i.bid = n(0.95)), "bid_near_par");
    assert_eq!(
        reason(|i| {
            i.secs_to_end = 400;
            i.time_pct = n(50.0);
        }),
        "time_not_late"
    );
    assert_eq!(reason(|i| i.fair_prob = n(0.60)), "fair_prob_low");
    assert_eq!(reason(|i| i.cex_velocity_against = true), "counter_momentum");
}

#[test]
fn expected_move_grows_with_the_root_of_time() {
    assert_eq!(f(expected_move_usd(n(40.0), 60)), 40.0);
    assert_eq!(f(expected_move_usd(n(40.0), 240)), 80.0);
    assert_eq!(f(itm_gap_z("UP", n(100_080.0), n(100_000.0), n(40.0), 240)), 1.0);
    assert_eq!(f(itm_gap_z("DOWN", n(100_080.0), n(100_000.0), n(40.0), 240)), 0.0);
}
