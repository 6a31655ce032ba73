use dot_tower::autoplay::{BuyPolicy, Greedy, Idle, Purchase, Station};
use dot_tower::{ClimberType, PerType};

fn options() -> Vec<Purchase> {
    vec![
        Purchase::Rank(ClimberType::Ranged),
        Purchase::Lock,
        Purchase::Rank(ClimberType::Melee),
        Purchase::HeroLevel,
        Purchase::Rank(ClimberType::Healer),
    ]
}

#[test]
fn the_default_player_buys_cheapest_at_the_frontier() {
    let g = Greedy::default();
    assert_eq!(g.buy, BuyPolicy::Cheapest);
    assert_eq!(g.station, Station::Frontier);
    assert_eq!(g.station_floor(42, 31), Some(42));
    assert_eq!(g.arrange(&options(), &PerType::splat(1)), options());
    let _ = Idle;
}

#[test]
fn stationing_below_never_goes_under_the_lock_line() {
    let g = Greedy::new(BuyPolicy::Cheapest, Station::Below(5));
    assert_eq!(g.station_floor(42, 31), Some(37));
    assert_eq!(g.station_floor(33, 31), Some(31));
    assert_eq!(g.station_floor(3, 0), Some(0));
    assert_eq!(Greedy::new(BuyPolicy::Cheapest, Station::Off).station_floor(42, 31), None);
}

#[test]
fn no_lock_never_offers_the_lock() {
    let g = Greedy::new(BuyPolicy::NoLock, Station::Frontier);
    assert_eq!(
        g.arrange(&options(), &PerType::splat(1)),
        vec![
            Purchase::Rank(ClimberType::Ranged),
            Purchase::Rank(ClimberType::Melee),
            Purchase::HeroLevel,
            Purchase::Rank(ClimberType::Healer),
        ]
    );
}

#[test]
fn lock_first_puts_the_lock_first_and_keeps_the_rest_in_order() {
    let g = Greedy::new(BuyPolicy::LockFirst, Station::Frontier);
    assert_eq!(
        g.arrange(&options(), &PerType::splat(1)),
        vec![
            Purchase::Lock,
            Purchase::Rank(ClimberType::Ranged),
            Purchase::Rank(ClimberType::Melee),
            Purchase::HeroLevel,
            Purchase::Rank(ClimberType::Healer),
        ]
    );
}

#[test]
fn focus_puts_its_type_first() {
    let g = Greedy::new(BuyPolicy::Focus(ClimberType::Healer), Station::Frontier);
    assert_eq!(
        g.arrange(&options(), &PerType::splat(1)),
        vec![
            Purchase::Rank(ClimberType::Healer),
            Purchase::Rank(ClimberType::Ranged),
            Purchase::Lock,
            Purchase::Rank(ClimberType::Melee),
            Purchase::HeroLevel,
        ]
    );
}

#[test]
fn even_raises_the_lowest_rank_first_and_holds_ties_in_price_order() {
    let g = Greedy::new(BuyPolicy::Even, Station::Frontier);
    // Melee 5, ranged 3, healer 3: ranged and healer tie, and ranged was the
    // cheaper option, so it stays ahead. Everything else comes after the ranks
    // in price order.
    assert_eq!(
        g.arrange(&options(), &PerType::new(5, 3, 3)),
        vec![
            Purchase::Rank(ClimberType::Ranged),
            Purchase::Rank(ClimberType::Healer),
            Purchase::Rank(ClimberType::Melee),
            Purchase::Lock,
            Purchase::HeroLevel,
        ]
    );
}
