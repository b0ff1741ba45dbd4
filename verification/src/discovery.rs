//! Market discovery: case-insensitive filtering of candidate markets by a
//! free-text query.

use vstd::prelude::*;

use crate::text::contains_chars;
use crate::text::contains_seq;
use crate::text::lower_chars;
use crate::text::lower_vec;
use crate::text::subrange_vec;
use crate::text::to_chars;
use crate::text::trim_bounds;
use crate::text::trim_chars;

verus! {

/// A market candidate reported by the prediction-market venue.
#[derive(Debug, Clone, PartialEq, Eq)]
pub struct PolymarketMarket {
    pub slug: String,
}

/// The query as it is matched: trimmed, then lower-cased.
pub open spec fn query_key(q: Seq<char>) -> Seq<char> {
    lower_chars(trim_chars(q))
}

/// Whether a market matches a (already trimmed and lower-cased) query.
pub open spec fn market_matches(m: PolymarketMarket, key: Seq<char>) -> bool {
    contains_seq(lower_chars(m.slug@), key)
}

/// Keeps the markets whose slug contains the query, ignoring case and
/// surrounding white space; a blank query keeps everything.
pub fn filter_markets(markets: Vec<PolymarketMarket>, needle: &str) -> (r: Vec<PolymarketMarket>)
    ensures
        query_key(needle@).len() == 0 ==> r@ == markets@,
        query_key(needle@).len() > 0 ==> r@ == markets@.filter(
            |m: PolymarketMarket| market_matches(m, query_key(needle@)),
        ),
{
    let q = to_chars(needle);
    let bounds = trim_bounds(&q);
    let trimmed = subrange_vec(&q, bounds.0, bounds.1);
    let key = lower_vec(&trimmed);
    if key.len() == 0 {
        return markets;
    }

    let ghost pred = |m: PolymarketMarket| market_matches(m, query_key(needle@));
    let ghost orig = markets@;
    let mut rest = markets;
    let mut out: Vec<PolymarketMarket> = Vec::new();
    let ghost mut seen: Seq<PolymarketMarket> = Seq::empty();
    proof {
        assert(seen + rest@ =~= orig);
        assert(out@ =~= seen.filter(pred)) by {
            reveal(Seq::filter);
        }
    }
    while rest.len() > 0
        invariant
            seen + rest@ == orig,
            out@ == seen.filter(pred),
            key@ == query_key(needle@),
            key@.len() > 0,
            pred == (|m: PolymarketMarket| market_matches(m, query_key(needle@))),
        decreases rest@.len(),
    {
        let m = rest.remove(0);
        proof {
            assert(seen.push(m) + rest@ =~= orig);
        }
        let slug_chars = to_chars(m.slug.as_str());
        let slug_lc = lower_vec(&slug_chars);
        let matched = contains_chars(&slug_lc, &key);
        proof {
            assert(matched == pred(m));
            reveal(vstd::seq::Seq::filter);
            assert(seen.push(m).drop_last() =~= seen);
            assert(seen.push(m).last() == m);
        }
        if matched {
            out.push(m);
        }
        proof {
            seen = seen.push(m);
            assert(out@ =~= seen.filter(pred));
        }
    }
    proof {
        assert(seen =~= orig);
    }
    out
}

} // verus!
