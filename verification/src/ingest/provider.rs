//! A market-data provider that answers over HTTP with JSON.

use crate::ingest::types::{DailyFeatureItem, DailyFeaturesResponse};
use crate::text::{blank, chars_of, is_blank};
use crate::time::{date_text, Date};
use vstd::prelude::*;
use vstd::string::{StrSliceExecFns, StringExecFns};

verus! {

/// The seconds after which a request is given up where none are configured.
pub const DEFAULT_TIMEOUT_SECS: u64 = 30;

/// The path of the features where none is configured.
pub const DEFAULT_PATH: &'static str = "/v1/stock_features_daily";

/// How many times a request is tried where nothing is configured.
pub const DEFAULT_RETRIES: u32 = 3;

/// The name under which the provider's runs are recorded.
pub const PROVIDER_NAME: &'static str = "external_http_json";

/// Why a provider's answer is not taken.
#[derive(Clone, Copy, Debug, PartialEq, Eq, Structural)]
pub enum ProviderError {
    /// The answer is for another day than the one asked for.
    DateMismatch { expected: Date, got: Date },
    /// An item has no ticker.
    EmptyTicker { index: usize },
    /// An item has no name.
    EmptyName { index: usize },
    /// An item has no features.
    NoFeatures { index: usize },
}

/// `s` without the characters `c` at its end.
pub open spec fn strip_trailing(s: Seq<char>, c: char) -> Seq<char>
    decreases s.len(),
{
    if s.len() > 0 && s.last() == c {
        strip_trailing(s.drop_last(), c)
    } else {
        s
    }
}

/// `path` with a slash in front of it, where it has none.
pub open spec fn rooted(path: Seq<char>) -> Seq<char> {
    if path.len() > 0 && path[0] == '/' {
        path
    } else {
        seq!['/'] + path
    }
}

/// The address of the features: the base without slashes at its end, then the path
/// with one slash at its front.
pub open spec fn endpoint_text(base_url: Seq<char>, path: Seq<char>) -> Seq<char> {
    strip_trailing(base_url, '/') + rooted(path)
}

/// The path that is used: the configured one, or the default where none is configured
/// or it is blank.
pub open spec fn path_text(configured: Option<Seq<char>>) -> Seq<char> {
    match configured {
        Some(p) => if blank(p) {
            DEFAULT_PATH@
        } else {
            p
        },
        None => DEFAULT_PATH@,
    }
}

/// The rule that item `i` breaks, or `None`.
pub open spec fn feature_item_failure(items: Seq<DailyFeatureItem>, i: int) -> Option<ProviderError> {
    let item = items[i];
    let index = i as usize;
    if blank(item.ticker@) {
        Some(ProviderError::EmptyTicker { index })
    } else if blank(item.name@) {
        Some(ProviderError::EmptyName { index })
    } else if item.features@.len() == 0 {
        Some(ProviderError::NoFeatures { index })
    } else {
        None
    }
}

/// The failure of the first among the first `n` items that breaks a rule.
pub open spec fn first_item_failure(items: Seq<DailyFeatureItem>, n: int) -> Option<ProviderError>
    decreases n,
{
    if n <= 0 {
        None
    } else {
        match first_item_failure(items, n - 1) {
            Some(e) => Some(e),
            None => feature_item_failure(items, n - 1),
        }
    }
}

/// What validation makes of an answer for the day `expected`: nothing, or the first
/// rule that it breaks. The day is tried first, then the items in turn.
pub open spec fn response_failure(resp: DailyFeaturesResponse, expected: Date) -> Option<ProviderError> {
    if resp.as_of_date != expected {
        Some(ProviderError::DateMismatch { expected, got: resp.as_of_date })
    } else {
        first_item_failure(resp.items@, resp.items@.len() as int)
    }
}

/// What [`ProviderError::message`] says of each error.
pub open spec fn provider_error_text(e: ProviderError) -> Seq<char> {
    match e {
        ProviderError::DateMismatch { expected, got } => "provider as_of_date mismatch: expected "@
            + date_text(expected@) + ", got "@ + date_text(got@),
        ProviderError::EmptyTicker { index } => "ticker must be non-empty"@,
        ProviderError::EmptyName { index } => "name must be non-empty"@,
        ProviderError::NoFeatures { index } => "features must be non-empty"@,
    }
}

impl ProviderError {
    /// The error in words.
    pub fn message(&self) -> (r: String)
        ensures
            r@ == provider_error_text(*self),
    {
        match self {
            ProviderError::DateMismatch { expected, got } => {
                let mut out = String::from_str("provider as_of_date mismatch: expected ");
                out.append(expected.to_text().as_str());
                out.append(", got ");
                out.append(got.to_text().as_str());
                out
            },
            ProviderError::EmptyTicker { .. } => String::from_str("ticker must be non-empty"),
            ProviderError::EmptyName { .. } => String::from_str("name must be non-empty"),
            ProviderError::NoFeatures { .. } => String::from_str("features must be non-empty"),
        }
    }
}

/// Where item `i` is the first to break a rule, its failure is the first among any
/// greater number of items.
pub proof fn lemma_first_item_failure_at(items: Seq<DailyFeatureItem>, n: int, i: int)
    requires
        first_item_failure(items, i) is None,
        feature_item_failure(items, i) is Some,
        0 <= i < n,
    ensures
        first_item_failure(items, n) == feature_item_failure(items, i),
    decreases n,
{
    if i < n - 1 {
        lemma_first_item_failure_at(items, n - 1, i);
    }
}

/// The path of the features that is used.
pub fn features_path(configured: Option<&str>) -> (r: String)
    ensures
        r@ == path_text(
            match configured {
                Some(p) => Some(p@),
                None => None,
            },
        ),
{
    match configured {
        Some(p) => if is_blank(p) {
            String::from_str(DEFAULT_PATH)
        } else {
            String::from_str(p)
        },
        None => String::from_str(DEFAULT_PATH),
    }
}

/// The address that the features are asked from.
pub fn url(base_url: &str, path: &str) -> (r: String)
    ensures
        r@ == endpoint_text(base_url@, path@),
{
    let b = chars_of(base_url);
    let mut end: usize = b.len();
    assert(b@.subrange(0, end as int) =~= b@);
    while end > 0 && b[end - 1] == '/'
        invariant
            end <= b.len(),
            strip_trailing(b@, '/') == strip_trailing(b@.subrange(0, end as int), '/'),
        decreases end,
    {
        assert(b@.subrange(0, end as int).drop_last() =~= b@.subrange(0, end - 1));
        end -= 1;
    }
    let mut out = String::from_str(base_url.substring_char(0, end));
    let p = chars_of(path);
    if p.len() == 0 || p[0] != '/' {
        proof {
            reveal_strlit("/");
        }
        out.append("/");
    }
    out.append(path);
    assert(out@ =~= endpoint_text(base_url@, path@));
    out
}

/// Holds a provider's answer to what was asked for: the day `expected`, and items
/// with a ticker, a name and at least one feature each.
pub fn validate(resp: &DailyFeaturesResponse, expected: Date) -> (r: Result<(), ProviderError>)
    ensures
        match r {
            Ok(_) => response_failure(*resp, expected) is None,
            Err(e) => response_failure(*resp, expected) == Some(e),
        },
{
    if !resp.as_of_date.same_day(&expected) {
        return Err(ProviderError::DateMismatch { expected, got: resp.as_of_date });
    }
    let mut i: usize = 0;
    while i < resp.items.len()
        invariant
            i <= resp.items.len(),
            resp.as_of_date == expected,
            first_item_failure(resp.items@, i as int) is None,
        decreases resp.items.len() - i,
    {
        match validate_item(&resp.items, i) {
            Ok(_) => {},
            Err(e) => {
                proof {
                    lemma_first_item_failure_at(resp.items@, resp.items@.len() as int, i as int);
                }
                return Err(e);
            },
        }
        i += 1;
    }
    Ok(())
}

/// Holds item `index` to the rules of an item.
fn validate_item(items: &Vec<DailyFeatureItem>, index: usize) -> (r: Result<(), ProviderError>)
    requires
        index < items.len(),
    ensures
        match r {
            Ok(_) => feature_item_failure(items@, index as int) is None,
            Err(e) => feature_item_failure(items@, index as int) == Some(e),
        },
{
    let item = &items[index];
    if is_blank(item.ticker.as_str()) {
        return Err(ProviderError::EmptyTicker { index });
    }
    if is_blank(item.name.as_str()) {
        return Err(ProviderError::EmptyName { index });
    }
    if item.features.len() == 0 {
        return Err(ProviderError::NoFeatures { index });
    }
    Ok(())
}

} // verus!
