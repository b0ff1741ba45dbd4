use lag_lab::discovery::{filter_markets, PolymarketMarket};

fn sample_market(slug: &str) -> PolymarketMarket {
    PolymarketMarket {
        slug: slug.to_string(),
    }
}

#[test]
fn discovery_filters_market_candidates() {
    let markets = vec![sample_market("btc-up-down"), sample_market("sports-final")];
    let out = filter_markets(markets, "btc");
    assert_eq!(out, vec![sample_market("btc-up-down")]);
}

#[test]
fn discovery_is_case_insensitive() {
    let markets = vec![sample_market("BTC-up-down"), sample_market("sports-final")];
    let out = filter_markets(markets, "btc");
    assert_eq!(out, vec![sample_market("BTC-up-down")]);
}

#[test]
fn discovery_trims_query() {
    let markets = vec![sample_market("btc-up-down"), sample_market("sports-final")];
    let out = filter_markets(markets, "  btc  ");
    assert_eq!(out, vec![sample_market("btc-up-down")]);
}

#[test]
fn discovery_whitespace_only_query_returns_all_markets() {
    let markets = vec![sample_market("btc-up-down"), sample_market("sports-final")];
    let out = filter_markets(markets.clone(), "   ");
    assert_eq!(out, markets);
}

#[test]
fn discovery_uppercase_query_matches_lowercase_slug() {
    let markets = vec![sample_market("btc-up-down"), sample_market("eth-up-down")];
    let out = filter_markets(markets, "BTC");
    assert_eq!(out, vec![sample_market("btc-up-down")]);
}

#[test]
fn discovery_keeps_every_match_in_input_order() {
    let markets = vec![
        sample_market("btc-15m"),
        sample_market("sports-final"),
        sample_market("btc-hourly"),
    ];
    let out = filter_markets(markets, "btc");
    assert_eq!(
        out,
        vec![sample_market("btc-15m"), sample_market("btc-hourly")]
    );
}
