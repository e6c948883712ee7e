//! Market listing and keyword search over the Gamma API's pages.
//!
//! The Gamma API has no server-side search. A search fetches pages of one hundred
//! markets and keeps those that contain every keyword; the fetching is done by the
//! caller, which hands each page to a `MarketSearch`.

use vstd::prelude::*;
use crate::models::market::{GammaMarket, text_or_empty, texts};
use vstd::string::StringExecFns;
use crate::utils::text::{
    decimal_text, lowercase, occurs_in, split_whitespace, str_contains, to_lowercase, usize_to_text,
    whitespace_words,
};

verus! {

/// Markets per page of the Gamma API listing.
pub open spec fn page_size() -> nat {
    100
}

/// The path of a listing request for `limit` active, open markets from `offset` on.
pub open spec fn markets_page_path_text(limit: nat, offset: nat) -> Seq<char> {
    "/markets?limit="@ + decimal_text(limit) + "&offset="@ + decimal_text(offset)
        + "&active=true&closed=false"@
}

/// The path of the request for one market.
pub open spec fn market_path_text(market_id: Seq<char>) -> Seq<char> {
    "/markets/"@ + market_id
}

/// The path of the listing request for `limit` active, open markets from `offset` on.
pub fn markets_page_path(limit: usize, offset: usize) -> (r: String)
    ensures
        r@ == markets_page_path_text(limit as nat, offset as nat),
{
    let mut path = String::from_str("/markets?limit=");
    let limit_text = usize_to_text(limit);
    path.append(limit_text.as_str());
    path.append("&offset=");
    let offset_text = usize_to_text(offset);
    path.append(offset_text.as_str());
    path.append("&active=true&closed=false");
    path
}

/// The path of the request for the market `market_id`.
pub fn market_path(market_id: &str) -> (r: String)
    ensures
        r@ == market_path_text(market_id@),
{
    let mut path = String::from_str("/markets/");
    path.append(market_id);
    path
}

/// A listed market is kept when its question is not empty.
pub open spec fn is_listed(m: GammaMarket) -> bool {
    m.question@.len() > 0
}

/// The markets of a page, in order, that have a question.
pub open spec fn listed_markets(page: Seq<GammaMarket>) -> Seq<GammaMarket> {
    page.filter(|m: GammaMarket| is_listed(m))
}

/// A page loses exactly its markets with an empty question: the listing is the page's
/// markets with a non-empty question, in page order.
pub proof fn law_listing_drops_only_empty_questions(page: Seq<GammaMarket>)
    ensures
        listed_markets(page) == page.filter(|m: GammaMarket| m.question@.len() > 0),
{
    assert((|m: GammaMarket| is_listed(m)) =~= (|m: GammaMarket| m.question@.len() > 0));
}

/// Drops the markets without a question from a fetched page, keeping the order.
pub fn keep_listed(page: Vec<GammaMarket>) -> (r: Vec<GammaMarket>)
    ensures
        r@ == listed_markets(page@),
        r@ == page@.filter(|m: GammaMarket| m.question@.len() > 0),
{
    proof {
        law_listing_drops_only_empty_questions(page@);
    }
    let mut kept: Vec<GammaMarket> = Vec::new();
    let mut rest = page;
    let ghost all = page@;
    let ghost mut i: int = 0;
    assert(all.skip(0) =~= all);
    while rest.len() > 0
        invariant
            0 <= i <= all.len(),
            rest@ == all.skip(i),
            kept@ == all.take(i).filter(|m: GammaMarket| is_listed(m)),
        decreases rest.len(),
    {
        let m = rest.remove(0);
        proof {
            assert(m == all[i]);
            assert(all.take(i + 1).drop_last() =~= all.take(i));
            assert(all.take(i + 1).last() == all[i]);
            assert(rest@ =~= all.skip(i + 1));
            reveal_with_fuel(Seq::filter, 1);
        }
        if !m.question.as_str().is_empty() {
            kept.push(m);
        }
        proof {
            i = i + 1;
        }
    }
    assert(all.take(i) =~= all);
    kept
}

/// Whether every keyword occurs in at least one of the three texts.
pub open spec fn keywords_in_texts(
    keywords: Seq<Seq<char>>,
    question: Seq<char>,
    slug: Seq<char>,
    description: Seq<char>,
) -> bool {
    forall|k: int|
        0 <= k < keywords.len() ==> {
            ||| occurs_in(#[trigger] keywords[k], question)
            ||| occurs_in(keywords[k], slug)
            ||| occurs_in(keywords[k], description)
        }
}

/// Whether every keyword occurs in the market's question, slug or description, all
/// lowercased (a missing slug or description reads as empty).
pub open spec fn market_matches(keywords: Seq<Seq<char>>, m: GammaMarket) -> bool {
    keywords_in_texts(
        keywords,
        lowercase(m.question@),
        lowercase(text_or_empty(m.slug)),
        lowercase(text_or_empty(m.description)),
    )
}

/// The keywords of a query: its lowercase form split at whitespace.
pub open spec fn query_keywords(query: Seq<char>) -> Seq<Seq<char>> {
    whitespace_words(lowercase(query))
}

/// Adds the matching markets of `page`, in order, to `results` while there are fewer than
/// `limit` of them; says whether it stopped because the limit was reached.
pub open spec fn absorb(
    results: Seq<GammaMarket>,
    page: Seq<GammaMarket>,
    keywords: Seq<Seq<char>>,
    limit: nat,
) -> (Seq<GammaMarket>, bool)
    decreases page.len(),
{
    if results.len() >= limit {
        (results, true)
    } else if page.len() == 0 {
        (results, false)
    } else if market_matches(keywords, page[0]) {
        absorb(results.push(page[0]), page.drop_first(), keywords, limit)
    } else {
        absorb(results, page.drop_first(), keywords, limit)
    }
}

fn lowercase_or_empty(text: &Option<String>) -> (r: String)
    ensures
        r@ == lowercase(text_or_empty(*text)),
{
    match text {
        Some(t) => to_lowercase(t.as_str()),
        None => {
            proof {
                reveal_strlit("");
            }
            let empty = "";
            assert(empty@ =~= Seq::<char>::empty());
            to_lowercase(empty)
        },
    }
}

/// Whether every keyword occurs in the question, the slug or the description text.
pub fn keywords_found(keywords: &Vec<String>, question: &str, slug: &str, description: &str) -> (r: bool)
    ensures
        r == keywords_in_texts(texts(keywords@), question@, slug@, description@),
{
    let mut k: usize = 0;
    while k < keywords.len()
        invariant
            0 <= k <= keywords.len(),
            forall|j: int|
                0 <= j < k ==> {
                    ||| occurs_in(#[trigger] texts(keywords@)[j], question@)
                    ||| occurs_in(texts(keywords@)[j], slug@)
                    ||| occurs_in(texts(keywords@)[j], description@)
                },
        decreases keywords.len() - k,
    {
        let kw = keywords[k].as_str();
        if !(str_contains(question, kw) || str_contains(slug, kw) || str_contains(description, kw)) {
            assert(texts(keywords@)[k as int] == kw@);
            return false;
        }
        k = k + 1;
    }
    true
}

/// Whether every keyword occurs in the market's lowercased question, slug or description.
pub fn matches_keywords(keywords: &Vec<String>, m: &GammaMarket) -> (r: bool)
    ensures
        r == market_matches(texts(keywords@), *m),
{
    let question = to_lowercase(m.question.as_str());
    let slug = lowercase_or_empty(&m.slug);
    let description = lowercase_or_empty(&m.description);
    keywords_found(keywords, question.as_str(), slug.as_str(), description.as_str())
}

/// A keyword search in progress over the pages of the market listing.
pub struct MarketSearch {
    keywords: Vec<String>,
    limit: usize,
    max_pages: usize,
    page: usize,
    results: Vec<GammaMarket>,
    finished: bool,
}

impl MarketSearch {
    /// The lowercase keywords searched for.
    pub closed spec fn keywords_spec(&self) -> Seq<Seq<char>> {
        texts(self.keywords@)
    }

    /// The result limit.
    pub closed spec fn limit_spec(&self) -> nat {
        self.limit as nat
    }

    /// The most pages to scan.
    pub closed spec fn max_pages_spec(&self) -> nat {
        self.max_pages as nat
    }

    /// Pages handed in so far.
    pub closed spec fn pages_spec(&self) -> nat {
        self.page as nat
    }

    /// Matching markets found so far, in the order found.
    pub closed spec fn results_spec(&self) -> Seq<GammaMarket> {
        self.results@
    }

    /// Whether the search stopped early: an empty page, or the limit reached.
    pub closed spec fn finished_spec(&self) -> bool {
        self.finished
    }

    /// Whether another page is to be fetched.
    pub open spec fn wants_page(&self) -> bool {
        !self.finished_spec() && self.pages_spec() < self.max_pages_spec()
    }

    /// The page count stays within the bound, and the results stay within the limit.
    pub closed spec fn well_formed(self) -> bool {
        &&& self.page <= self.max_pages
        &&& self.results.len() <= self.limit
    }

    /// Starts a search for the markets containing every word of `query` (compared in
    /// lowercase), returning at most `limit` of them and scanning at most `max_pages` pages.
    pub fn new(query: &str, limit: usize, max_pages: usize) -> (r: MarketSearch)
        ensures
            r.well_formed(),
            r.keywords_spec() == query_keywords(query@),
            r.limit_spec() == limit,
            r.max_pages_spec() == max_pages,
            r.pages_spec() == 0,
            r.results_spec() == Seq::<GammaMarket>::empty(),
            !r.finished_spec(),
    {
        let lowered = to_lowercase(query);
        let keywords = split_whitespace(lowered.as_str());
        MarketSearch { keywords, limit, max_pages, page: 0, results: Vec::new(), finished: false }
    }

    /// Pages handed in so far.
    pub fn pages_scanned(&self) -> (r: usize)
        ensures
            r == self.pages_spec(),
    {
        self.page
    }

    /// Whether another page is to be fetched.
    pub fn goes_on(&self) -> (r: bool)
        ensures
            r == self.wants_page(),
    {
        !self.finished && self.page < self.max_pages
    }

    /// The listing offset of the next page to fetch, if the search goes on. The offset
    /// of a page that is fetched must fit in `usize`.
    pub fn next_offset(&self) -> (r: Option<usize>)
        requires
            self.well_formed(),
            self.wants_page() ==> self.pages_spec() * page_size() <= usize::MAX,
        ensures
            r is Some <==> self.wants_page(),
            r matches Some(o) ==> o == self.pages_spec() * page_size(),
    {
        if !self.finished && self.page < self.max_pages {
            Some(self.page * 100)
        } else {
            None
        }
    }

    /// Takes in a fetched page. An empty page ends the search; otherwise its matching
    /// markets are added in order while fewer than the limit have been found. Returns the number of
    /// pages handed in and of markets found, for progress reports.
    pub fn absorb_page(&mut self, markets: Vec<GammaMarket>) -> (r: (usize, usize))
        requires
            old(self).well_formed(),
            old(self).wants_page(),
        ensures
            final(self).well_formed(),
            final(self).keywords_spec() == old(self).keywords_spec(),
            final(self).limit_spec() == old(self).limit_spec(),
            final(self).max_pages_spec() == old(self).max_pages_spec(),
            final(self).pages_spec() == old(self).pages_spec() + 1,
            final(self).pages_spec() <= final(self).max_pages_spec(),
            final(self).results_spec().len() <= final(self).limit_spec(),
            markets@.len() == 0 ==> final(self).finished_spec() && final(self).results_spec()
                == old(self).results_spec(),
            markets@.len() > 0 ==> (final(self).results_spec(), final(self).finished_spec()) == absorb(
                old(self).results_spec(),
                markets@,
                old(self).keywords_spec(),
                old(self).limit_spec(),
            ),
            ({
                let matches = page_matches(markets@, old(self).keywords_spec());
                let room = old(self).limit_spec() - old(self).results_spec().len();
                let taken = if matches.len() < room { matches.len() as int } else { room };
                final(self).results_spec() == old(self).results_spec() + matches.take(taken)
            }),
            r.0 == final(self).pages_spec(),
            r.1 == final(self).results_spec().len(),
    {
        proof {
            law_search_takes_every_match_up_to_limit(
                self.results@,
                markets@,
                texts(self.keywords@),
                self.limit as nat,
            );
            if markets@.len() == 0 {
                assert(page_matches(markets@, texts(self.keywords@)) =~= Seq::<GammaMarket>::empty());
                assert(self.results@ + Seq::<GammaMarket>::empty().take(0) =~= self.results@);
            }
        }
        let ghost kws = texts(self.keywords@);
        let ghost start = self.results@;
        let ghost page = markets@;
        self.page = self.page + 1;
        if markets.len() == 0 {
            self.finished = true;
            return (self.page, self.results.len());
        }
        let mut rest = markets;
        assert(page.skip(0) =~= page);
        let ghost mut j: int = 0;
        while rest.len() > 0 && self.results.len() < self.limit
            invariant
                0 <= j <= page.len(),
                page == markets@,
                page.len() > 0,
                rest@ == page.skip(j),
                texts(self.keywords@) == kws,
                kws == texts(old(self).keywords@),
                start == old(self).results@,
                !self.finished,
                self.well_formed(),
                self.limit == old(self).limit,
                self.max_pages == old(self).max_pages,
                self.page == old(self).page + 1,
                absorb(self.results@, page.skip(j), kws, self.limit as nat) == absorb(
                    start,
                    page,
                    kws,
                    self.limit as nat,
                ),
            decreases rest.len(),
        {
            let m = rest.remove(0);
            proof {
                assert(page.skip(j)[0] == m);
                assert(page.skip(j).drop_first() =~= page.skip(j + 1));
                assert(rest@ =~= page.skip(j + 1));
            }
            let ghost before = self.results@;
            if matches_keywords(&self.keywords, &m) {
                self.results.push(m);
                assert(self.results@ == before.push(page.skip(j)[0]));
            }
            proof {
                j = j + 1;
            }
        }
        if rest.len() == 0 {
            assert(page.skip(j) =~= Seq::<GammaMarket>::empty());
        }
        if self.results.len() >= self.limit {
            self.finished = true;
        }
        (self.page, self.results.len())
    }

    /// The markets found, in the order found.
    pub fn into_results(self) -> (r: Vec<GammaMarket>)
        ensures
            r@ == self.results_spec(),
    {
        self.results
    }
}

/// Searching a page keeps the markets found before and adds only markets that
/// contain every keyword.
pub proof fn law_search_adds_only_matches(
    results: Seq<GammaMarket>,
    page: Seq<GammaMarket>,
    keywords: Seq<Seq<char>>,
    limit: nat,
)
    ensures
        ({
            let found = absorb(results, page, keywords, limit).0;
            &&& found.len() >= results.len()
            &&& found.take(results.len() as int) == results
            &&& forall|k: int| results.len() <= k < found.len() ==> market_matches(keywords, #[trigger] found[k])
        }),
    decreases page.len(),
{
    if results.len() < limit && page.len() > 0 {
        if market_matches(keywords, page[0]) {
            let grown = results.push(page[0]);
            law_search_adds_only_matches(grown, page.drop_first(), keywords, limit);
            let found = absorb(results, page, keywords, limit).0;
            assert(found.take(grown.len() as int).take(results.len() as int) =~= found.take(results.len() as int));
            assert(grown.take(results.len() as int) =~= results);
            assert(found[results.len() as int] == grown[results.len() as int]) by {
                assert(found.take(grown.len() as int)[results.len() as int] == found[results.len() as int]);
            }
        } else {
            law_search_adds_only_matches(results, page.drop_first(), keywords, limit);
        }
    } else {
        assert(results.take(results.len() as int) =~= results);
    }
}

/// The markets of `page` that contain every keyword, in page order.
pub open spec fn page_matches(page: Seq<GammaMarket>, keywords: Seq<Seq<char>>) -> Seq<GammaMarket> {
    page.filter(|m: GammaMarket| market_matches(keywords, m))
}

/// A page adds every matching market while fewer than `limit` results are held: the
/// results after the page are the results before it followed by the first
/// `min(limit - held, matches)` matching markets of the page, in page order, and the
/// search stops for its limit exactly when the page has at least `limit - held` matches.
pub proof fn law_search_takes_every_match_up_to_limit(
    results: Seq<GammaMarket>,
    page: Seq<GammaMarket>,
    keywords: Seq<Seq<char>>,
    limit: nat,
)
    requires
        results.len() <= limit,
    ensures
        ({
            let matches = page_matches(page, keywords);
            let room = limit - results.len();
            let taken = if matches.len() < room { matches.len() as int } else { room };
            &&& absorb(results, page, keywords, limit).0 == results + matches.take(taken)
            &&& absorb(results, page, keywords, limit).1 <==> matches.len() >= room
        }),
    decreases page.len(),
{
    let f = |m: GammaMarket| market_matches(keywords, m);
    let matches = page.filter(f);
    let room = limit - results.len();
    if page.len() == 0 {
        assert(matches =~= Seq::<GammaMarket>::empty());
        assert(results + matches.take(0) =~= results);
    } else if results.len() >= limit {
        assert(results + matches.take(0) =~= results);
    } else {
        let x = page[0];
        let tail = page.drop_first();
        assert(page =~= seq![x] + tail);
        tail.lemma_filter_prepend(x, f);
        let rest = tail.filter(f);
        if market_matches(keywords, x) {
            assert(matches == seq![x] + rest);
            law_search_takes_every_match_up_to_limit(results.push(x), tail, keywords, limit);
            let room2 = limit - (results.len() + 1);
            let taken2 = if rest.len() < room2 { rest.len() as int } else { room2 };
            let taken = if matches.len() < room { matches.len() as int } else { room };
            assert(taken == taken2 + 1);
            assert(results.push(x) + rest.take(taken2) =~= results + matches.take(taken));
        } else {
            assert(matches == Seq::<GammaMarket>::empty() + rest);
            assert(matches =~= rest);
            law_search_takes_every_match_up_to_limit(results, tail, keywords, limit);
        }
    }
}

/// A search never holds more results than its limit, and it stops for the limit
/// exactly when the limit is reached.
pub proof fn law_search_respects_limit(
    results: Seq<GammaMarket>,
    page: Seq<GammaMarket>,
    keywords: Seq<Seq<char>>,
    limit: nat,
)
    requires
        results.len() <= limit,
    ensures
        absorb(results, page, keywords, limit).0.len() <= limit,
        absorb(results, page, keywords, limit).1 <==> absorb(results, page, keywords, limit).0.len()
            >= limit,
    decreases page.len(),
{
    if results.len() < limit && page.len() > 0 {
        if market_matches(keywords, page[0]) {
            law_search_respects_limit(results.push(page[0]), page.drop_first(), keywords, limit);
        } else {
            law_search_respects_limit(results, page.drop_first(), keywords, limit);
        }
    }
}

} // verus!
