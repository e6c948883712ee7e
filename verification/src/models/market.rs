//! Market records: the Gamma API's shape and the library's normalized form.

use vstd::prelude::*;

verus! {

/// The texts held by a sequence of strings.
pub open spec fn texts(v: Seq<String>) -> Seq<Seq<char>> {
    v.map_values(|s: String| s@)
}

/// The list of strings that serde_json reads from a JSON text, if the text is a JSON
/// array of strings.
pub uninterp spec fn json_string_list(text: Seq<char>) -> Option<Seq<Seq<char>>>;

/// serde_json: `from_str::<Vec<String>>`, with the error dropped. The parse is named
/// `json_string_list`.
#[verifier::external_body]
pub(crate) fn parse_string_list(text: &str) -> (r: Option<Vec<String>>)
    ensures
        r is Some <==> json_string_list(text@) is Some,
        r matches Some(v) ==> json_string_list(text@) == Some(texts(v@)),
{
    serde_json::from_str::<Vec<String>>(text).ok()
}

/// A market as the Gamma API reports it. `outcomes` and `clob_token_ids` hold JSON
/// arrays of strings as text; numbers come as text too.
#[derive(Debug, Clone)]
pub struct GammaMarket {
    pub condition_id: String,
    pub question: String,
    pub slug: Option<String>,
    pub outcomes: String,
    pub outcome_prices: Option<String>,
    pub volume: Option<String>,
    pub liquidity: Option<String>,
    pub active: Option<bool>,
    pub closed: Option<bool>,
    pub end_date: Option<String>,
    pub id: Option<String>,
    pub clob_token_ids: Option<String>,
    pub description: Option<String>,
}

/// The descriptive fields of a market, normalized from the Gamma API's form
/// (everything but its volume and liquidity figures).
#[derive(Debug, Clone)]
pub struct MarketInfo {
    pub id: String,
    pub question: String,
    pub condition_id: String,
    pub slug: String,
    pub outcomes: Vec<String>,
    pub active: bool,
    pub closed: bool,
    pub end_date: Option<String>,
    pub category: Option<String>,
    pub clob_token_ids: Option<Vec<String>>,
}

/// The text of an optional string, empty when absent.
pub open spec fn text_or_empty(s: Option<String>) -> Seq<char> {
    match s {
        Some(t) => t@,
        None => Seq::empty(),
    }
}

/// The outcomes of a market: the JSON list in `outcomes`, or the raw text as the
/// only outcome when it is not such a list.
pub open spec fn outcomes_of(outcomes: Seq<char>) -> Seq<Seq<char>> {
    match json_string_list(outcomes) {
        Some(list) => list,
        None => seq![outcomes],
    }
}

/// The token ids of a market: the JSON list in `clob_token_ids`, when present and parseable.
pub open spec fn token_ids_of(ids: Option<String>) -> Option<Seq<Seq<char>>> {
    match ids {
        Some(t) => json_string_list(t@),
        None => None,
    }
}

/// The outcomes of a market whose outcome text parsed to `parsed`: the parsed list, or
/// the raw text as the only outcome.
pub open spec fn outcomes_from(raw: Seq<char>, parsed: Option<Seq<Seq<char>>>) -> Seq<Seq<char>> {
    match parsed {
        Some(list) => list,
        None => seq![raw],
    }
}

impl MarketInfo {
    /// Normalizes a Gamma API market whose outcome list and token-id list have been read
    /// from their JSON texts (`None` where absent or unreadable): the id falls back to
    /// the condition id, the slug to the empty text; a market is active and open unless
    /// the API says otherwise; unreadable outcomes become the raw text as the only
    /// outcome; no category is set.
    pub fn from_parsed(
        gamma: GammaMarket,
        outcomes: Option<Vec<String>>,
        clob_token_ids: Option<Vec<String>>,
    ) -> (r: MarketInfo)
        ensures
            r.id@ == match gamma.id {
                Some(i) => i@,
                None => gamma.condition_id@,
            },
            r.question@ == gamma.question@,
            r.condition_id@ == gamma.condition_id@,
            r.slug@ == text_or_empty(gamma.slug),
            texts(r.outcomes@) == outcomes_from(
                gamma.outcomes@,
                match outcomes {
                    Some(v) => Some(texts(v@)),
                    None => None,
                },
            ),
            r.active == match gamma.active {
                Some(a) => a,
                None => true,
            },
            r.closed == match gamma.closed {
                Some(c) => c,
                None => false,
            },
            r.end_date == gamma.end_date,
            r.category is None,
            r.clob_token_ids == clob_token_ids,
    {
        let outcomes = match outcomes {
            Some(list) => list,
            None => {
                let mut single: Vec<String> = Vec::new();
                single.push(gamma.outcomes.clone());
                assert(texts(single@) =~= seq![gamma.outcomes@]);
                single
            },
        };
        let id = match gamma.id {
            Some(i) => i,
            None => gamma.condition_id.clone(),
        };
        let slug = match gamma.slug {
            Some(s) => s,
            None => String::new(),
        };
        let active = match gamma.active {
            Some(a) => a,
            None => true,
        };
        let closed = match gamma.closed {
            Some(c) => c,
            None => false,
        };
        MarketInfo {
            id,
            question: gamma.question,
            condition_id: gamma.condition_id,
            slug,
            outcomes,
            active,
            closed,
            end_date: gamma.end_date,
            category: None,
            clob_token_ids,
        }
    }

    /// Normalizes a Gamma API market, reading its outcome and token-id lists from their
    /// JSON texts with serde_json.
    pub fn from_gamma(gamma: GammaMarket) -> (r: MarketInfo)
        ensures
            r.id@ == match gamma.id {
                Some(i) => i@,
                None => gamma.condition_id@,
            },
            r.question@ == gamma.question@,
            r.condition_id@ == gamma.condition_id@,
            r.slug@ == text_or_empty(gamma.slug),
            texts(r.outcomes@) == outcomes_of(gamma.outcomes@),
            r.active == match gamma.active {
                Some(a) => a,
                None => true,
            },
            r.closed == match gamma.closed {
                Some(c) => c,
                None => false,
            },
            r.end_date == gamma.end_date,
            r.category is None,
            (r.clob_token_ids is Some) == (token_ids_of(gamma.clob_token_ids) is Some),
            r.clob_token_ids matches Some(ids) ==> token_ids_of(gamma.clob_token_ids) == Some(
                texts(ids@),
            ),
    {
        let outcomes = parse_string_list(gamma.outcomes.as_str());
        let clob_token_ids = match &gamma.clob_token_ids {
            Some(ids) => parse_string_list(ids.as_str()),
            None => None,
        };
        MarketInfo::from_parsed(gamma, outcomes, clob_token_ids)
    }
}

/// Whether the ETL run processes a market: it is active, has token ids, and carries
/// the requested category when one is requested.
pub open spec fn etl_eligible(m: MarketInfo, category: Option<String>) -> bool {
    &&& m.active
    &&& m.clob_token_ids is Some
    &&& match category {
        Some(c) => match m.category {
            Some(mc) => mc@ == c@,
            None => false,
        },
        None => true,
    }
}

/// The indices, in order, of the eligible markets among the first `n`.
pub open spec fn eligible_indices(ms: Seq<MarketInfo>, category: Option<String>, n: int) -> Seq<int>
    decreases n,
{
    if n <= 0 {
        seq![]
    } else {
        eligible_indices(ms, category, n - 1) + if etl_eligible(ms[n - 1], category) {
            seq![n - 1]
        } else {
            seq![]
        }
    }
}

proof fn lemma_eligible_prefix(ms: Seq<MarketInfo>, category: Option<String>, n: int, m: int)
    requires
        0 <= n <= m,
    ensures
        eligible_indices(ms, category, n).len() <= eligible_indices(ms, category, m).len(),
        forall|k: int|
            0 <= k < eligible_indices(ms, category, n).len() ==> eligible_indices(ms, category, n)[k]
                == eligible_indices(ms, category, m)[k],
    decreases m - n,
{
    if n < m {
        lemma_eligible_prefix(ms, category, n, m - 1);
    }
}

/// The ETL selection, among the first `n` markets, is exactly the markets that are
/// active, have token ids and, when a category is requested, carry a category with the
/// same text: each such index once, in increasing order, and no other.
pub proof fn law_etl_selection_is_exact(ms: Seq<MarketInfo>, category: Option<String>, n: int)
    requires
        0 <= n <= ms.len(),
    ensures
        forall|k: int|
            0 <= k < eligible_indices(ms, category, n).len() ==> {
                let i = #[trigger] eligible_indices(ms, category, n)[k];
                &&& 0 <= i < n
                &&& ms[i].active
                &&& ms[i].clob_token_ids is Some
                &&& category is Some ==> (ms[i].category is Some && ms[i].category->0@ == category->0@)
            },
        forall|k: int, l: int|
            0 <= k < l < eligible_indices(ms, category, n).len() ==> #[trigger] eligible_indices(ms, category, n)[k]
                < #[trigger] eligible_indices(ms, category, n)[l],
        forall|i: int|
            0 <= i < n && ms[i].active && ms[i].clob_token_ids is Some && (category is Some ==> (
            ms[i].category is Some && ms[i].category->0@ == category->0@)) ==> #[trigger] eligible_indices(
                ms,
                category,
                n,
            ).contains(i),
    decreases n,
{
    if n > 0 {
        law_etl_selection_is_exact(ms, category, n - 1);
        let prev = eligible_indices(ms, category, n - 1);
        let all = eligible_indices(ms, category, n);
        let extra = if etl_eligible(ms[n - 1], category) {
            seq![n - 1]
        } else {
            seq![]
        };
        assert(all == prev + extra);
        assert forall|k: int| 0 <= k < all.len() implies {
            let i = #[trigger] all[k];
            &&& 0 <= i < n
            &&& ms[i].active
            &&& ms[i].clob_token_ids is Some
            &&& category is Some ==> (ms[i].category is Some && ms[i].category->0@ == category->0@)
        } by {
            if k < prev.len() {
                assert(all[k] == prev[k]);
            } else {
                assert(all[k] == n - 1);
            }
        }
        assert forall|k: int, l: int| 0 <= k < l < all.len() implies #[trigger] all[k] < #[trigger] all[l] by {
            if l < prev.len() {
                assert(all[k] == prev[k] && all[l] == prev[l]);
            } else {
                assert(all[k] == prev[k]);
                assert(prev[k] < n - 1);
            }
        }
        assert forall|i: int|
            0 <= i < n && ms[i].active && ms[i].clob_token_ids is Some && (category is Some ==> (
            ms[i].category is Some && ms[i].category->0@ == category->0@)) implies all.contains(i) by {
            if i < n - 1 {
                assert(prev.contains(i));
                let k = choose|k: int| 0 <= k < prev.len() && prev[k] == i;
                assert(all[k] == prev[k]);
            } else {
                assert(etl_eligible(ms[i], category));
                assert(all[prev.len() as int] == i);
            }
        }
    }
}

/// Picks the markets an ETL run processes: the first `max_markets` eligible ones, in
/// order, given as indices into `markets`.
pub fn select_for_etl(markets: &Vec<MarketInfo>, category: &Option<String>, max_markets: usize) -> (r: Vec<usize>)
    ensures
        ({
            let all = eligible_indices(markets@, *category, markets.len() as int);
            &&& r.len() == if all.len() < max_markets { all.len() } else { max_markets as nat }
            &&& forall|k: int| 0 <= k < r.len() ==> r[k] as int == all[k]
        }),
        forall|k: int|
            0 <= k < r.len() ==> {
                let m = markets@[#[trigger] r[k] as int];
                &&& r[k] < markets.len()
                &&& m.active
                &&& m.clob_token_ids is Some
                &&& *category is Some ==> (m.category is Some && m.category->0@ == category->0@)
            },
{
    proof {
        law_etl_selection_is_exact(markets@, *category, markets.len() as int);
    }
    let mut picked: Vec<usize> = Vec::new();
    let mut i: usize = 0;
    while i < markets.len() && picked.len() < max_markets
        invariant
            0 <= i <= markets.len(),
            picked.len() <= max_markets,
            picked.len() == eligible_indices(markets@, *category, i as int).len(),
            forall|k: int|
                0 <= k < picked.len() ==> picked[k] as int == eligible_indices(markets@, *category, i as int)[k],
        decreases markets.len() - i,
    {
        let m = &markets[i];
        let wanted = match category {
            Some(c) => match &m.category {
                Some(mc) => *mc == *c,
                None => false,
            },
            None => true,
        };
        if m.active && m.clob_token_ids.is_some() && wanted {
            picked.push(i);
        }
        i = i + 1;
    }
    proof {
        lemma_eligible_prefix(markets@, *category, i as int, markets.len() as int);
    }
    picked
}

/// The JSON text serde_json writes for a list of strings.
pub uninterp spec fn json_list_text(items: Seq<Seq<char>>) -> Seq<char>;

/// serde_json: `to_string` on a list of strings, with the error dropped. The text is
/// named `json_list_text`. It always succeeds: serde_json fails only where a value's
/// `Serialize` impl fails or a map has non-string keys, and a list of strings writes
/// each item as an escaped JSON string into an in-memory buffer, which cannot fail.
#[verifier::external_body]
fn encode_string_list(items: &Vec<String>) -> (r: Option<String>)
    ensures
        r is Some,
        r matches Some(t) ==> t@ == json_list_text(texts(items@)),
{
    serde_json::to_string(items).ok()
}

/// The JSON texts under which a market's outcome list and optional token-id list are
/// stored. serde_json encodes any list of strings, so the result is always `Some`.
pub fn encode_market_lists(outcomes: &Vec<String>, token_ids: &Option<Vec<String>>) -> (r: Option<(String, Option<String>)>)
    ensures
        r is Some,
        r matches Some((o, t)) ==> {
            &&& o@ == json_list_text(texts(outcomes@))
            &&& (t is Some) == (token_ids is Some)
            &&& t matches Some(tt) ==> tt@ == json_list_text(texts(token_ids->0@))
        },
{
    let outcomes_json = match encode_string_list(outcomes) {
        Some(t) => t,
        None => return None,
    };
    let tokens_json = match token_ids {
        Some(ids) => match encode_string_list(ids) {
            Some(t) => Some(t),
            None => return None,
        },
        None => None,
    };
    Some((outcomes_json, tokens_json))
}

} // verus!
