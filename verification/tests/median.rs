use lag_lab::median::{VenueCache, VenueTick};

fn tick(venue: &str, px: f64, ts: u64) -> VenueTick<f64> {
    VenueTick {
        venue: venue.to_string(),
        px,
        ts,
    }
}

#[test]
fn cache_keeps_latest_tick_per_venue() {
    let mut cache: VenueCache<f64> = VenueCache::new();
    cache.ingest(tick("binance", 61_000.0, 10_100));
    cache.ingest(tick("binance", 60_500.0, 10_000));
    cache.ingest(tick("coinbase", 61_100.0, 10_100));

    assert_eq!(cache.venue_count(), 2);
    assert_eq!(cache.latest_ts(), Some(10_100));
    assert_eq!(cache.entry_at(0).px, 61_000.0);
    assert_eq!(cache.entry_at(0).ts, 10_100);
}

#[test]
fn cache_replaces_a_tick_with_an_equal_or_newer_timestamp() {
    let mut cache: VenueCache<f64> = VenueCache::new();
    cache.ingest(tick("kraken", 59_000.0, 5));
    cache.ingest(tick("kraken", 59_500.0, 5));

    assert_eq!(cache.venue_count(), 1);
    assert_eq!(cache.entry_at(0).px, 59_500.0);
}

#[test]
fn empty_cache_reports_no_latest_timestamp() {
    let cache: VenueCache<f64> = VenueCache::new();
    assert_eq!(cache.latest_ts(), None);
    assert!(cache.fresh_indices(1_000).is_empty());
}

#[test]
fn staleness_filter_keeps_only_ticks_near_the_freshest() {
    let mut cache: VenueCache<f64> = VenueCache::new();
    cache.ingest(tick("binance", 60_000.0, 10_000));
    cache.ingest(tick("coinbase", 60_050.0, 10_500));
    cache.ingest(tick("kraken", 59_980.0, 10_300));
    cache.ingest(tick("old-feed", 60_040.0, 8_000));

    let fresh = cache.fresh_indices(2_000);

    assert_eq!(fresh, vec![0, 1, 2]);
    let prices: Vec<f64> = fresh.iter().map(|&i| cache.entry_at(i).px).collect();
    assert_eq!(prices, vec![60_000.0, 60_050.0, 59_980.0]);
}
