use horse_select::distribution::build_cumulative;
use horse_select::driver::{retry_decision, select_with_retry, SelectError, DEFAULT_BUDGET_MILLIS};
use horse_select::entity::Horse;
use horse_select::sampler::{place_draws, random_select, sort_draws};

fn example_horses() -> Vec<Horse> {
    vec![
        Horse::new(1, String::from("A"), 2000),
        Horse::new(2, String::from("B"), 4000),
        Horse::new(3, String::from("C"), 10000),
    ]
}

#[test]
fn boundaries_from_example() {
    // Odds 2.0, 4.0, 10.0: weights 0.5, 0.25, 0.1 of the unit, scaled by 1e12.
    let horses = example_horses();
    let cum = build_cumulative(&horses);
    assert_eq!(cum, vec![500_000_000, 750_000_000, 850_000_000]);
    for i in 1..cum.len() {
        assert!(cum[i - 1] <= cum[i]);
    }
    // The final boundary is exactly the total weight: normalized, exactly 1.
    assert_eq!(cum[cum.len() - 1], 850_000_000);
}

#[test]
fn example_draws_map_to_favorites() {
    let horses = example_horses();
    let cum = build_cumulative(&horses);
    let total = cum[cum.len() - 1];
    // Draws 0.2 and 0.7 of the unit interval, as fractions of the total.
    let draws = vec![total / 5, total * 7 / 10];
    let batch = place_draws(&horses, &cum, &draws);
    assert_eq!(batch.picks.len(), 2);
    assert_eq!(batch.picks[0].name, "A");
    assert_eq!(batch.picks[1].name, "B");
    assert!(!batch.collision);
}

#[test]
fn example_draws_collide() {
    let horses = example_horses();
    let cum = build_cumulative(&horses);
    let total = cum[cum.len() - 1];
    // Draws 0.6 and 0.65 both land in B's interval.
    let draws = vec![total * 6 / 10, total * 65 / 100];
    let batch = place_draws(&horses, &cum, &draws);
    assert_eq!(batch.picks.len(), 2);
    assert_eq!(batch.picks[0].name, "B");
    assert_eq!(batch.picks[1].name, "B");
    assert!(batch.collision);
}

#[test]
fn boundary_draw_goes_to_next_interval() {
    // Entity i owns [cum[i-1], cum[i]): a draw exactly on a boundary
    // belongs to the entity whose boundary first exceeds it.
    let horses = example_horses();
    let cum = build_cumulative(&horses);
    let draws = vec![0, cum[0]];
    let batch = place_draws(&horses, &cum, &draws);
    assert_eq!(batch.picks[0].name, "A");
    assert_eq!(batch.picks[1].name, "B");
    assert!(!batch.collision);
}

#[test]
fn short_circuit_preserves_order() {
    // More heads requested than entities: the list comes back verbatim.
    let horses = example_horses();
    let batch = random_select(5, &horses);
    assert_eq!(batch.picks.len(), 3);
    assert_eq!(batch.picks[0].name, "A");
    assert_eq!(batch.picks[1].name, "B");
    assert_eq!(batch.picks[2].name, "C");
    assert_eq!(batch.picks[0].number, 1);
    assert_eq!(batch.picks[1].number, 2);
    assert_eq!(batch.picks[2].number, 3);
    assert!(!batch.collision);
}

#[test]
fn short_circuit_at_exact_count() {
    let horses = example_horses();
    let batch = random_select(3, &horses);
    assert_eq!(batch.picks.len(), 3);
    assert_eq!(batch.picks[0].name, "A");
    assert_eq!(batch.picks[1].name, "B");
    assert_eq!(batch.picks[2].name, "C");
}

#[test]
fn sample_size_matches_request() {
    let horses = example_horses();
    for _ in 0..50 {
        let batch = random_select(2, &horses);
        assert_eq!(batch.picks.len(), 2);
        for pick in &batch.picks {
            assert!(horses.iter().any(|h| h.name == pick.name));
        }
    }
}

#[test]
fn zero_size_request_yields_empty() {
    let horses = example_horses();
    let batch = random_select(0, &horses);
    assert_eq!(batch.picks.len(), 0);
    assert!(!batch.collision);
}

#[test]
fn zero_total_weight_yields_empty() {
    // Odds so large that every fixed-point weight rounds down to zero.
    let horses = vec![
        Horse::new(1, String::from("A"), 2_000_000_000_000),
        Horse::new(2, String::from("B"), 3_000_000_000_000),
    ];
    let batch = random_select(1, &horses);
    assert_eq!(batch.picks.len(), 0);
    assert!(!batch.collision);
}

#[test]
fn invalid_odds_rejected() {
    let horses = vec![
        Horse::new(1, String::from("A"), 2000),
        Horse::new(2, String::from("B"), 0),
        Horse::new(3, String::from("C"), 10000),
    ];
    let r = select_with_retry(1, &horses, DEFAULT_BUDGET_MILLIS, false);
    match r {
        Err(e) => assert_eq!(e, SelectError::InvalidOdds),
        Ok(_) => panic!("non-positive odds must be rejected"),
    }
}

#[test]
fn invalid_odds_ignored_when_short_circuiting() {
    // With n covering the list no weight is ever computed, as in the
    // original control flow: the list comes back before validation.
    let horses = vec![Horse::new(1, String::from("A"), 0)];
    let r = select_with_retry(1, &horses, DEFAULT_BUDGET_MILLIS, false);
    let batch = r.expect("short-circuit path must succeed");
    assert_eq!(batch.picks.len(), 1);
    assert_eq!(batch.picks[0].name, "A");
}

#[test]
fn favorites_win_more_often() {
    // Empirical check: with odds 2.0 against 10.0 the favored entity must
    // be selected more often over many single-pick rounds.
    let horses = vec![
        Horse::new(1, String::from("fav"), 2000),
        Horse::new(2, String::from("outsider"), 10000),
    ];
    let mut fav: u32 = 0;
    let mut outsider: u32 = 0;
    for _ in 0..3000 {
        let batch = random_select(1, &horses);
        assert_eq!(batch.picks.len(), 1);
        if batch.picks[0].name == "fav" {
            fav += 1;
        } else {
            outsider += 1;
        }
    }
    assert!(fav > outsider);
}

#[test]
fn sort_draws_orders_values() {
    let mut draws: Vec<u64> = vec![5, 1, 4, 1, 3];
    sort_draws(&mut draws);
    assert_eq!(draws, vec![1, 1, 3, 4, 5]);
}

#[test]
fn sort_draws_handles_small_inputs() {
    let mut empty: Vec<u64> = Vec::new();
    sort_draws(&mut empty);
    assert_eq!(empty.len(), 0);
    let mut single: Vec<u64> = vec![7];
    sort_draws(&mut single);
    assert_eq!(single, vec![7]);
}

#[test]
fn deadline_forces_acceptance() {
    // Past the budget the driver accepts even a colliding batch in strict
    // mode; within the budget it retries it.
    assert!(retry_decision(5001, 5000, true, true));
    assert!(!retry_decision(10, 5000, true, true));
    // The relaxed default accepts the first batch whatever the flag says.
    assert!(retry_decision(10, 5000, true, false));
    assert!(retry_decision(10, 5000, false, true));
}

#[test]
fn driver_relaxed_returns_a_batch() {
    let horses = example_horses();
    let r = select_with_retry(2, &horses, DEFAULT_BUDGET_MILLIS, false);
    let batch = r.expect("valid odds must succeed");
    assert_eq!(batch.picks.len(), 2);
}

#[test]
fn driver_strict_returns_within_budget() {
    // One entity is so favored that two draws nearly always collide, so
    // strict mode keeps retrying until the budget expires.
    let horses = vec![
        Horse::new(1, String::from("A"), 1),
        Horse::new(2, String::from("B"), 1_000_000_000),
        Horse::new(3, String::from("C"), 1_000_000_000),
    ];
    let started = std::time::Instant::now();
    let r = select_with_retry(2, &horses, 150, true);
    let elapsed = started.elapsed().as_millis();
    let batch = r.expect("valid odds must succeed");
    assert_eq!(batch.picks.len(), 2);
    // The budget plus ample slack for the last sampler call.
    assert!(elapsed < 5000);
}

#[test]
fn entity_equality_is_by_name() {
    let a = Horse::new(1, String::from("X"), 2000);
    let b = Horse::new(9, String::from("X"), 5000);
    let c = Horse::new(1, String::from("Y"), 2000);
    assert!(a == b);
    assert!(a != c);
}
