//! Request paths and error handling of the CLOB price API.

use vstd::prelude::*;
use vstd::string::StringExecFns;
use crate::models::market::texts;
use crate::models::price::Interval;
use crate::utils::text::{occurs_in, str_contains};

verus! {

/// The path of a price-history request for a token at an interval.
pub open spec fn price_history_path_text(token_id: Seq<char>, interval: Interval) -> Seq<char> {
    "/prices-history?market="@ + token_id + "&interval="@ + interval.api_name()
}

/// The texts of `parts` joined with `sep` between neighbours.
pub open spec fn joined(parts: Seq<Seq<char>>, sep: Seq<char>) -> Seq<char>
    decreases parts.len(),
{
    if parts.len() == 0 {
        Seq::empty()
    } else if parts.len() == 1 {
        parts[0]
    } else {
        joined(parts.drop_last(), sep) + sep + parts.last()
    }
}

/// The path of a request for the current prices of several tokens.
pub open spec fn prices_batch_path_text(token_ids: Seq<Seq<char>>) -> Seq<char> {
    "/prices?token_ids="@ + joined(token_ids, ","@)
}

/// The path of a request for the current price of one token.
pub open spec fn price_path_text(token_id: Seq<char>) -> Seq<char> {
    "/price?token_id="@ + token_id
}

/// Whether a failed price-history request means the token has no history: its
/// message mentions "404" or "empty".
pub open spec fn means_no_history(message: Seq<char>) -> bool {
    occurs_in("404"@, message) || occurs_in("empty"@, message)
}

/// The path of the price-history request for `token_id` at `interval`.
pub fn price_history_path(token_id: &str, interval: Interval) -> (r: String)
    ensures
        r@ == price_history_path_text(token_id@, interval),
{
    let mut path = String::from_str("/prices-history?market=");
    path.append(token_id);
    path.append("&interval=");
    path.append(interval.as_str());
    path
}

/// Whether an error of a price-history request stands for "no data", to be answered
/// with an empty history rather than an error.
pub fn is_missing_history(message: &str) -> (r: bool)
    ensures
        r == means_no_history(message@),
{
    str_contains(message, "404") || str_contains(message, "empty")
}

/// The path of the batch price request for `token_ids`, joined with commas.
pub fn prices_batch_path(token_ids: &Vec<String>) -> (r: String)
    ensures
        r@ == prices_batch_path_text(texts(token_ids@)),
{
    let mut path = String::from_str("/prices?token_ids=");
    let ghost prefix = path@;
    let ghost parts = texts(token_ids@);
    let mut i: usize = 0;
    while i < token_ids.len()
        invariant
            0 <= i <= token_ids.len(),
            parts == texts(token_ids@),
            prefix == "/prices?token_ids="@,
            path@ == prefix + joined(parts.take(i as int), ","@),
        decreases token_ids.len() - i,
    {
        proof {
            assert(parts.take(i + 1).drop_last() =~= parts.take(i as int));
            assert(parts.take(i + 1).last() == token_ids@[i as int]@);
        }
        if i > 0 {
            path.append(",");
        } else {
            assert(parts.take(0) =~= Seq::<Seq<char>>::empty());
            assert(joined(parts.take(1), ","@) == parts[0]);
        }
        path.append(token_ids[i].as_str());
        proof {
            if i > 0 {
                assert(prefix + joined(parts.take(i as int), ","@) + ","@ + token_ids@[i as int]@ =~= prefix + (
                joined(parts.take(i as int), ","@) + ","@ + token_ids@[i as int]@));
            } else {
                assert(prefix + Seq::<char>::empty() =~= prefix);
            }
        }
        i = i + 1;
    }
    assert(parts.take(token_ids.len() as int) =~= parts);
    path
}

/// The path of the price request for `token_id`.
pub fn price_path(token_id: &str) -> (r: String)
    ensures
        r@ == price_path_text(token_id@),
{
    let mut path = String::from_str("/price?token_id=");
    path.append(token_id);
    path
}

} // verus!
