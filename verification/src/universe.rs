//! The universe builder: which candidates of a day go to the model.
//!
//! The store returns the most traded tickers of the day, more of them than are
//! needed. Funds and notes are dropped by their names, the rest is ranked by a
//! composite score, and the best are kept.

use crate::domain::number::{order_key, Binary64};
use crate::domain::recommendation::Candidate;
use crate::text::{
    bytes_before, chars_of, contains, contains_seq, decimal_text, lower_chars, lowered,
    padded_decimal, push_count, push_padded, text_before, trim_bounds, trimmed,
};
use crate::time::{date_text, Date};
use vstd::prelude::*;
use vstd::string::{StringExecFns, StringSliceAdditionalSpecFns};
use vstd::utf8::encode_utf8;

verus! {

/// The smallest universe that may be asked for.
pub const MIN_UNIVERSE_SIZE: usize = 200;

/// The largest universe that may be asked for.
pub const MAX_UNIVERSE_SIZE: usize = 500;

/// How a universe is built.
#[derive(Debug, Clone)]
pub struct UniverseOptions {
    /// How many candidates go to the model, 200 to 500.
    pub size: usize,
    /// The least trading value of a ticker that the store is asked for, if any.
    pub min_trading_value: Option<Binary64>,
    /// How many times `size` tickers the store is asked for, at least once.
    pub oversample: usize,
}

impl Default for UniverseOptions {
    fn default() -> (r: UniverseOptions)
        ensures
            r.size == 200,
            r.min_trading_value is None,
            r.oversample == 5,
    {
        UniverseOptions { size: 200, min_trading_value: None, oversample: 5 }
    }
}

/// Why no universe was built.
#[derive(Clone, Copy, Debug, PartialEq, Eq, Structural)]
pub enum UniverseError {
    /// The size asked for is not one of 200 to 500.
    SizeOutOfRange { got: usize },
    /// The oversampling factor is zero.
    OversampleTooSmall,
    /// Fewer tickers than the size asked for are left once funds are dropped.
    InsufficientCandidates { as_of_date: Date, expected: usize, got: usize },
}

/// A ticker of the store with the score that ranks it. The score is the caller's to
/// compute from the ticker's features: the trading value in billions plus ten times the
/// one-day return.
#[derive(Debug, Clone)]
pub struct ScoredCandidate {
    pub score: Binary64,
    pub candidate: Candidate,
}

/// The words that mark a fund or a note in any mix of cases.
pub open spec fn kind_tokens() -> Seq<Seq<char>> {
    seq!["etf"@, "etn"@]
}

/// The brand names of fund families, which mark a fund as they are written.
pub open spec fn brand_tokens() -> Seq<Seq<char>> {
    seq![
        "KODEX"@,
        "TIGER"@,
        "KOSEF"@,
        "KBSTAR"@,
        "ARIRANG"@,
        "HANARO"@,
        "SOL"@,
        "ACE"@,
        "TIMEFOLIO"@,
        "PLUS"@,
        "1Q"@,
        "RISE"@,
    ]
}

/// Whether one of `tokens` stands somewhere in `s`.
pub open spec fn has_any(s: Seq<char>, tokens: Seq<Seq<char>>) -> bool {
    exists|k: int| 0 <= k < tokens.len() && contains_seq(s, #[trigger] tokens[k])
}

/// Whether a name is that of a fund or a note: trimmed, it is not empty and holds a
/// kind word in any mix of cases, or a brand name.
pub open spec fn fund_name(name: Seq<char>) -> bool {
    let s = trimmed(name);
    s.len() > 0 && (has_any(lowered(s), kind_tokens()) || has_any(s, brand_tokens()))
}

/// The views of token texts.
pub open spec fn token_views(tokens: Seq<&'static str>) -> Seq<Seq<char>> {
    Seq::new(tokens.len(), |k: int| tokens[k]@)
}

/// The words that mark a fund or a note in any mix of cases.
pub fn fund_kind_tokens() -> (r: Vec<&'static str>)
    ensures
        token_views(r@) == kind_tokens(),
{
    let r = vec!["etf", "etn"];
    assert(token_views(r@) =~= kind_tokens());
    r
}

/// The brand names of fund families.
pub fn fund_brand_tokens() -> (r: Vec<&'static str>)
    ensures
        token_views(r@) == brand_tokens(),
{
    let r = vec![
        "KODEX",
        "TIGER",
        "KOSEF",
        "KBSTAR",
        "ARIRANG",
        "HANARO",
        "SOL",
        "ACE",
        "TIMEFOLIO",
        "PLUS",
        "1Q",
        "RISE",
    ];
    assert(token_views(r@) =~= brand_tokens());
    r
}

/// Whether one of `tokens` stands somewhere in `v`.
fn contains_any(v: &Vec<char>, tokens: &Vec<&'static str>) -> (r: bool)
    ensures
        r == has_any(v@, token_views(tokens@)),
{
    let ghost views = token_views(tokens@);
    let mut k: usize = 0;
    while k < tokens.len()
        invariant
            k <= tokens.len(),
            views == token_views(tokens@),
            forall|j: int| 0 <= j < k ==> !contains_seq(v@, #[trigger] views[j]),
        decreases tokens.len() - k,
    {
        let pat = chars_of(tokens[k]);
        assert(v@.subrange(0, v.len() as int) =~= v@);
        if contains(v, 0, v.len(), &pat) {
            assert(views[k as int] == pat@);
            return true;
        }
        k += 1;
    }
    false
}

/// Whether a name is that of a fund or a note, which is no candidate.
pub fn is_etf_or_etn_name(name: &str) -> (r: bool)
    ensures
        r == fund_name(name@),
{
    let v = chars_of(name);
    let (a, b) = trim_bounds(&v, 0, v.len());
    assert(v@.subrange(0, v.len() as int) =~= v@);
    if a == b {
        return false;
    }
    let (plain, lower) = lower_chars(&v, a, b);
    let kinds = fund_kind_tokens();
    if contains_any(&lower, &kinds) {
        return true;
    }
    let brands = fund_brand_tokens();
    contains_any(&plain, &brands)
}

/// Whether the options ask for a universe of an accepted size.
pub open spec fn size_ok(size: usize) -> bool {
    MIN_UNIVERSE_SIZE <= size <= MAX_UNIVERSE_SIZE
}

/// How many tickers the store is asked for: `size` times `oversample`, or what the
/// machine can count where that is more, and never less than `size`.
pub open spec fn fetch_limit_of(size: usize, oversample: usize) -> usize {
    if size * oversample > usize::MAX {
        usize::MAX
    } else if size * oversample < size {
        size
    } else {
        (size * oversample) as usize
    }
}

/// What [`fetch_limit`] makes of the options.
pub open spec fn fetch_limit_spec(opts: UniverseOptions) -> Result<usize, UniverseError> {
    if !size_ok(opts.size) {
        Err(UniverseError::SizeOutOfRange { got: opts.size })
    } else if opts.oversample < 1 {
        Err(UniverseError::OversampleTooSmall)
    } else {
        Ok(fetch_limit_of(opts.size, opts.oversample))
    }
}

/// How many of the most traded tickers to ask the store for, where the options are
/// in order.
pub fn fetch_limit(opts: &UniverseOptions) -> (r: Result<usize, UniverseError>)
    ensures
        r == fetch_limit_spec(*opts),
{
    if opts.size < MIN_UNIVERSE_SIZE || opts.size > MAX_UNIVERSE_SIZE {
        return Err(UniverseError::SizeOutOfRange { got: opts.size });
    }
    if opts.oversample < 1 {
        return Err(UniverseError::OversampleTooSmall);
    }
    let limit = match opts.size.checked_mul(opts.oversample) {
        Some(n) => n,
        None => usize::MAX,
    };
    assert(opts.size * opts.oversample >= opts.size) by (nonlinear_arith)
        requires
            opts.oversample >= 1,
            opts.size >= 0,
    ;
    Ok(limit)
}

/// Whether `a` ranks before `b`: by the greater score, and among equal scores by the
/// ticker that sorts first.
pub open spec fn ranks_before(a: ScoredCandidate, b: ScoredCandidate) -> bool {
    let ka = order_key(a.score.bits);
    let kb = order_key(b.score.bits);
    ka > kb || (ka == kb && bytes_before(
        encode_utf8(a.candidate.ticker@),
        encode_utf8(b.candidate.ticker@),
    ))
}

/// The rows whose names are not those of funds, in their order.
pub open spec fn eligible(rows: Seq<ScoredCandidate>) -> Seq<ScoredCandidate>
    decreases rows.len(),
{
    if rows.len() == 0 {
        Seq::empty()
    } else if fund_name(rows[0].candidate.name@) {
        eligible(rows.drop_first())
    } else {
        seq![rows[0]] + eligible(rows.drop_first())
    }
}

/// The ranked sequence `t` with `x` put in front of the first row that does not rank
/// before it.
pub open spec fn place(x: ScoredCandidate, t: Seq<ScoredCandidate>) -> Seq<ScoredCandidate>
    decreases t.len(),
{
    if t.len() == 0 {
        seq![x]
    } else if !ranks_before(t[0], x) {
        seq![x] + t
    } else {
        seq![t[0]] + place(x, t.drop_first())
    }
}

/// The rows in ranked order. Rows that rank alike stay in the order they came in.
pub open spec fn ranked(rows: Seq<ScoredCandidate>) -> Seq<ScoredCandidate>
    decreases rows.len(),
{
    if rows.len() == 0 {
        Seq::empty()
    } else {
        place(rows[0], ranked(rows.drop_first()))
    }
}

/// Whether no row of `t` ranks before one that stands earlier in it.
pub open spec fn in_ranked_order(t: Seq<ScoredCandidate>) -> bool {
    forall|i: int, j: int| 0 <= i < j < t.len() ==> !ranks_before(#[trigger] t[j], #[trigger] t[i])
}

/// The candidates of rows.
pub open spec fn candidates_of(rows: Seq<ScoredCandidate>) -> Seq<Candidate> {
    rows.map_values(|r: ScoredCandidate| r.candidate)
}

/// The universe of a day: the best `size` of the eligible rows, or why there is none.
pub open spec fn universe_of(as_of_date: Date, rows: Seq<ScoredCandidate>, opts: UniverseOptions) -> Result<
    Seq<Candidate>,
    UniverseError,
> {
    if !size_ok(opts.size) {
        Err(UniverseError::SizeOutOfRange { got: opts.size })
    } else if opts.oversample < 1 {
        Err(UniverseError::OversampleTooSmall)
    } else if eligible(rows).len() < opts.size {
        Err(
            UniverseError::InsufficientCandidates {
                as_of_date,
                expected: opts.size,
                got: eligible(rows).len() as usize,
            },
        )
    } else {
        Ok(candidates_of(ranked(eligible(rows)).take(opts.size as int)))
    }
}

/// No text sorts before itself, and of two texts at most one sorts before the other.
pub proof fn lemma_bytes_before_asymmetric(a: Seq<u8>, b: Seq<u8>)
    ensures
        !(bytes_before(a, b) && bytes_before(b, a)),
    decreases a.len(),
{
    if a.len() > 0 && b.len() > 0 && a[0] == b[0] {
        lemma_bytes_before_asymmetric(a.drop_first(), b.drop_first());
    }
}

/// Of two different texts one sorts before the other.
pub proof fn lemma_bytes_before_total(a: Seq<u8>, b: Seq<u8>)
    ensures
        bytes_before(a, b) || bytes_before(b, a) || a == b,
    decreases a.len(),
{
    if a.len() > 0 && b.len() > 0 && a[0] == b[0] {
        lemma_bytes_before_total(a.drop_first(), b.drop_first());
        if a.drop_first() == b.drop_first() {
            assert(a =~= seq![a[0]] + a.drop_first());
            assert(b =~= seq![b[0]] + b.drop_first());
        }
    } else if a.len() == 0 && b.len() == 0 {
        assert(a =~= b);
    }
}

/// What sorts before a text that sorts before a third sorts before the third.
pub proof fn lemma_bytes_before_transitive(a: Seq<u8>, b: Seq<u8>, c: Seq<u8>)
    requires
        bytes_before(a, b),
        bytes_before(b, c),
    ensures
        bytes_before(a, c),
    decreases a.len(),
{
    if a.len() > 0 && b.len() > 0 && c.len() > 0 && a[0] == b[0] && b[0] == c[0] {
        lemma_bytes_before_transitive(a.drop_first(), b.drop_first(), c.drop_first());
    }
}

/// Ranking is an order: a row that ranks before another is not ranked after it, and
/// a row that ranks before `x` ranks before whatever `x` does not rank after.
pub proof fn lemma_ranks_before_order(a: ScoredCandidate, x: ScoredCandidate, b: ScoredCandidate)
    ensures
        !(ranks_before(a, x) && ranks_before(x, a)),
        ranks_before(a, x) && !ranks_before(b, x) ==> ranks_before(a, b),
{
    let ta = encode_utf8(a.candidate.ticker@);
    let tx = encode_utf8(x.candidate.ticker@);
    let tb = encode_utf8(b.candidate.ticker@);
    lemma_bytes_before_asymmetric(ta, tx);
    lemma_bytes_before_total(tb, tx);
    if bytes_before(ta, tx) && bytes_before(tx, tb) {
        lemma_bytes_before_transitive(ta, tx, tb);
    }
}

/// Placing `x` is inserting it at the first position `p` whose row does not rank
/// before it.
pub proof fn lemma_place_is_insert(x: ScoredCandidate, t: Seq<ScoredCandidate>, p: int)
    requires
        0 <= p <= t.len(),
        forall|q: int| 0 <= q < p ==> ranks_before(#[trigger] t[q], x),
        p < t.len() ==> !ranks_before(t[p], x),
    ensures
        place(x, t) == t.insert(p, x),
    decreases t.len(),
{
    if t.len() == 0 {
        assert(t.insert(p, x) =~= seq![x]);
    } else if p == 0 {
        assert(t.insert(0, x) =~= seq![x] + t);
    } else {
        let rest = t.drop_first();
        assert forall|q: int| 0 <= q < p - 1 implies ranks_before(#[trigger] rest[q], x) by {
            assert(rest[q] == t[q + 1]);
        }
        lemma_place_is_insert(x, rest, p - 1);
        assert(t.insert(p, x) =~= seq![t[0]] + rest.insert(p - 1, x));
    }
}

/// Ranking neither loses nor adds rows, and leaves them in ranked order.
pub proof fn lemma_ranked(rows: Seq<ScoredCandidate>)
    ensures
        ranked(rows).len() == rows.len(),
        ranked(rows).to_multiset() == rows.to_multiset(),
        in_ranked_order(ranked(rows)),
    decreases rows.len(),
{
    broadcast use vstd::seq_lib::group_to_multiset_ensures;

    if rows.len() == 0 {
        assert(ranked(rows).to_multiset() =~= rows.to_multiset());
    } else {
        let x = rows[0];
        let rest = rows.drop_first();
        let t = ranked(rest);
        lemma_ranked(rest);
        let p = first_not_before(x, t, 0);
        lemma_first_not_before(x, t, 0);
        lemma_place_is_insert(x, t, p);
        let out = t.insert(p, x);
        vstd::seq_lib::to_multiset_insert(t, p, x);
        assert(rows =~= rest.insert(0, x));
        vstd::seq_lib::to_multiset_insert(rest, 0, x);
        assert forall|i: int, j: int| 0 <= i < j < out.len() implies !ranks_before(
            #[trigger] out[j],
            #[trigger] out[i],
        ) by {
            if j == p {
                assert(out[i] == t[i]);
                lemma_ranks_before_order(t[i], x, x);
            } else if i == p {
                assert(out[j] == t[j - 1]);
                if j - 1 > p {
                    assert(!ranks_before(t[j - 1], t[p]));
                }
                lemma_ranks_before_order(t[j - 1], x, t[p]);
            } else {
                let ii = if i < p {
                    i
                } else {
                    i - 1
                };
                let jj = if j < p {
                    j
                } else {
                    j - 1
                };
                assert(out[i] == t[ii] && out[j] == t[jj]);
            }
        }
    }
}

/// The first position at or after `from` whose row does not rank before `x`, or the
/// length where every row does.
pub open spec fn first_not_before(x: ScoredCandidate, t: Seq<ScoredCandidate>, from: int) -> int
    decreases t.len() - from,
{
    if from < 0 || from >= t.len() {
        t.len() as int
    } else if !ranks_before(t[from], x) {
        from
    } else {
        first_not_before(x, t, from + 1)
    }
}

/// What [`first_not_before`] finds: every row between `from` and the position ranks
/// before `x`, and the row at the position does not.
pub proof fn lemma_first_not_before(x: ScoredCandidate, t: Seq<ScoredCandidate>, from: int)
    requires
        0 <= from <= t.len(),
    ensures
        from <= first_not_before(x, t, from) <= t.len(),
        forall|q: int| from <= q < first_not_before(x, t, from) ==> ranks_before(#[trigger] t[q], x),
        first_not_before(x, t, from) < t.len() ==> !ranks_before(
            t[first_not_before(x, t, from)],
            x,
        ),
    decreases t.len() - from,
{
    if from < t.len() && ranks_before(t[from], x) {
        lemma_first_not_before(x, t, from + 1);
    }
}

/// The eligible rows are no more than the rows, each of them is one of the rows, and
/// none of them has a fund's name.
pub proof fn lemma_eligible(rows: Seq<ScoredCandidate>)
    ensures
        eligible(rows).len() <= rows.len(),
        forall|k: int| 0 <= k < eligible(rows).len() ==> rows.contains(#[trigger] eligible(rows)[k]),
        forall|k: int| 0 <= k < eligible(rows).len() ==> !fund_name(
            (#[trigger] eligible(rows)[k]).candidate.name@,
        ),
    decreases rows.len(),
{
    if rows.len() > 0 {
        let rest = rows.drop_first();
        lemma_eligible(rest);
        assert forall|k: int| 0 <= k < eligible(rows).len() implies rows.contains(
            #[trigger] eligible(rows)[k],
        ) by {
            let x = eligible(rows)[k];
            if x == rows[0] {
            } else {
                let k2 = if fund_name(rows[0].candidate.name@) {
                    k
                } else {
                    k - 1
                };
                assert(eligible(rest)[k2] == x);
                assert(rest.contains(x));
                let j = choose|j: int| 0 <= j < rest.len() && rest[j] == x;
                assert(rows[j + 1] == x);
            }
        }
    }
}

/// What a universe is: as many candidates as were asked for, none of them a fund, in
/// ranked order, and no eligible row that was left out ranks before one that was
/// taken.
pub proof fn lemma_universe_is_the_best(
    as_of_date: Date,
    rows: Seq<ScoredCandidate>,
    opts: UniverseOptions,
)
    requires
        universe_of(as_of_date, rows, opts) is Ok,
    ensures
        ({
            let all = ranked(eligible(rows));
            let kept = all.take(opts.size as int);
            &&& universe_of(as_of_date, rows, opts) == Ok::<Seq<Candidate>, UniverseError>(
                candidates_of(kept),
            )
            &&& kept.len() == opts.size
            &&& all.to_multiset() == eligible(rows).to_multiset()
            &&& in_ranked_order(kept)
            &&& forall|i: int, j: int|
                0 <= i < opts.size <= j < all.len() ==> !ranks_before(
                    #[trigger] all[j],
                    #[trigger] kept[i],
                )
            &&& forall|i: int|
                0 <= i < kept.len() ==> rows.contains(#[trigger] kept[i]) && !fund_name(
                    kept[i].candidate.name@,
                )
        }),
{
    let e = eligible(rows);
    let all = ranked(e);
    let kept = all.take(opts.size as int);
    lemma_ranked(e);
    lemma_eligible(rows);
    assert forall|i: int| 0 <= i < kept.len() implies rows.contains(#[trigger] kept[i])
        && !fund_name(kept[i].candidate.name@) by {
        broadcast use vstd::seq_lib::group_to_multiset_ensures;

        assert(all.to_multiset().count(all[i]) > 0);
        assert(e.to_multiset().count(all[i]) > 0);
        assert(e.contains(all[i]));
        let k = choose|k: int| 0 <= k < e.len() && e[k] == all[i];
        assert(!fund_name(e[k].candidate.name@));
        assert(rows.contains(e[k]));
    }
}

/// Whether the candidate of every row is well formed.
pub open spec fn rows_wf(rows: Seq<ScoredCandidate>) -> bool {
    forall|i: int| 0 <= i < rows.len() ==> (#[trigger] rows[i]).candidate.wf()
}

/// Whether `a` ranks before `b`.
fn ranks_ahead(a: &ScoredCandidate, b: &ScoredCandidate) -> (r: bool)
    ensures
        r == ranks_before(*a, *b),
{
    let ka = a.score.key();
    let kb = b.score.key();
    if ka != kb {
        return ka > kb;
    }
    text_before(a.candidate.ticker.as_str(), b.candidate.ticker.as_str())
}

/// Puts `x` into the ranked rows `out`, in front of the first row that does not rank
/// before it.
fn place_row(out: &mut Vec<ScoredCandidate>, x: ScoredCandidate)
    ensures
        final(out)@ == place(x, old(out)@),
{
    let mut p: usize = 0;
    while p < out.len() && ranks_ahead(&out[p], &x)
        invariant
            p <= out.len(),
            forall|q: int| 0 <= q < p ==> ranks_before(#[trigger] out@[q], x),
        decreases out.len() - p,
    {
        p += 1;
    }
    proof {
        lemma_place_is_insert(x, out@, p as int);
    }
    out.insert(p, x);
}

/// Builds the universe of `as_of_date` from the rows that the store returned for it,
/// each with its score. Rows with the name of a fund or a note are dropped. If fewer
/// than `opts.size` are left the universe cannot be built. Otherwise the rows are
/// ranked by score, the greater first and equal scores by ticker, and the first
/// `opts.size` are the universe. The candidates come out as they went in, well formed
/// where they were.
pub fn build_candidate_universe_db(
    as_of_date: Date,
    rows: Vec<ScoredCandidate>,
    opts: &UniverseOptions,
) -> (r: Result<Vec<Candidate>, UniverseError>)
    ensures
        match r {
            Ok(v) => {
                &&& universe_of(as_of_date, rows@, *opts) == Ok::<Seq<Candidate>, UniverseError>(v@)
                &&& v@.len() == opts.size
                &&& rows_wf(rows@) ==> forall|i: int| 0 <= i < v@.len() ==> (#[trigger] v@[i]).wf()
            },
            Err(e) => universe_of(as_of_date, rows@, *opts) == Err::<Seq<Candidate>, UniverseError>(
                e,
            ),
        },
{
    if opts.size < MIN_UNIVERSE_SIZE || opts.size > MAX_UNIVERSE_SIZE {
        return Err(UniverseError::SizeOutOfRange { got: opts.size });
    }
    if opts.oversample < 1 {
        return Err(UniverseError::OversampleTooSmall);
    }
    let ghost all = rows@;
    let mut pending = rows;
    let mut best: Vec<ScoredCandidate> = Vec::new();
    assert(all.skip(all.len() as int) =~= Seq::<ScoredCandidate>::empty());
    while pending.len() > 0
        invariant
            pending@ == all.take(pending@.len() as int),
            pending@.len() <= all.len(),
            best@ == ranked(eligible(all.skip(pending@.len() as int))),
        decreases pending.len(),
    {
        let ghost k = pending@.len() as int;
        let x = pending.pop().unwrap();
        proof {
            assert(x == all[k - 1]);
            assert(pending@ =~= all.take(k - 1));
            assert(all.skip(k - 1).drop_first() =~= all.skip(k));
            assert(all.skip(k - 1)[0] == x);
        }
        if !is_etf_or_etn_name(x.candidate.name.as_str()) {
            proof {
                let e = eligible(all.skip(k));
                let grown = seq![x] + e;
                assert(grown.drop_first() =~= e);
                assert(grown[0] == x);
            }
            place_row(&mut best, x);
        }
    }
    proof {
        assert(all.skip(0) =~= all);
        lemma_ranked(eligible(all));
        lemma_eligible(all);
    }
    if best.len() < opts.size {
        return Err(
            UniverseError::InsufficientCandidates {
                as_of_date,
                expected: opts.size,
                got: best.len(),
            },
        );
    }
    best.truncate(opts.size);
    let ghost kept = best@;
    assert(kept =~= ranked(eligible(all)).take(opts.size as int));
    let mut out: Vec<Candidate> = Vec::new();
    while best.len() > 0
        invariant
            best@.len() <= kept.len(),
            best@ == kept.take(best@.len() as int),
            out@ == candidates_of(kept.skip(best@.len() as int)),
        decreases best.len(),
    {
        let ghost k = best@.len() as int;
        let x = best.pop().unwrap();
        proof {
            assert(x == kept[k - 1]);
            assert(best@ =~= kept.take(k - 1));
        }
        out.insert(0, x.candidate);
        assert(out@ =~= candidates_of(kept.skip(k - 1)));
    }
    assert(kept.skip(0) =~= kept);
    proof {
        lemma_universe_is_the_best(as_of_date, all, *opts);
        assert forall|i: int| 0 <= i < out@.len() && rows_wf(all) implies (#[trigger] out@[i]).wf() by {
            assert(all.contains(kept[i]));
            let j = choose|j: int| 0 <= j < all.len() && all[j] == kept[i];
            assert(all[j].candidate.wf());
        }
    }
    assert(out@ =~= candidates_of(kept));
    Ok(out)
}

/// What [`UniverseError::message`] says of each error.
pub open spec fn universe_error_text(e: UniverseError) -> Seq<char> {
    match e {
        UniverseError::SizeOutOfRange { got } => "candidate universe size must be 200..=500 (got "@
            + decimal_text(got as int) + ")"@,
        UniverseError::OversampleTooSmall => "UNIVERSE_OVERSAMPLE must be >= 1"@,
        UniverseError::InsufficientCandidates { as_of_date, expected, got } => "insufficient candidates for as_of_date="@
            + date_text(as_of_date@) + " after ETF/ETN exclusion: expected at least "@
            + decimal_text(expected as int) + ", got "@ + decimal_text(got as int),
    }
}

impl UniverseError {
    /// The error in words.
    pub fn message(&self) -> (r: String)
        ensures
            r@ == universe_error_text(*self),
    {
        match self {
            UniverseError::SizeOutOfRange { got } => {
                let mut out = String::from_str("candidate universe size must be 200..=500 (got ");
                push_count(&mut out, *got);
                out.append(")");
                out
            },
            UniverseError::OversampleTooSmall => String::from_str(
                "UNIVERSE_OVERSAMPLE must be >= 1",
            ),
            UniverseError::InsufficientCandidates { as_of_date, expected, got } => {
                let mut out = String::from_str("insufficient candidates for as_of_date=");
                out.append(as_of_date.to_text().as_str());
                out.append(" after ETF/ETN exclusion: expected at least ");
                push_count(&mut out, *expected);
                out.append(", got ");
                push_count(&mut out, *got);
                out
            },
        }
    }
}

/// The width of the number in a placeholder's ticker and name.
pub const STUB_NUMBER_WIDTH: usize = 6;

/// The ticker of the placeholder with number `i`.
pub open spec fn stub_ticker_text(i: nat) -> Seq<char> {
    "KRX:"@ + padded_decimal(i, STUB_NUMBER_WIDTH as nat)
}

/// The name of the placeholder with number `i`.
pub open spec fn stub_name_text(i: nat) -> Seq<char> {
    "Stub "@ + padded_decimal(i, STUB_NUMBER_WIDTH as nat)
}

/// The placeholder with number `i` that stands for a ticker where no store is at
/// hand, with the features that it is given.
pub fn stub_candidate(i: usize, features: Vec<crate::domain::recommendation::Feature>) -> (r: Candidate)
    ensures
        r.ticker@ == stub_ticker_text(i as nat),
        r.name@ == stub_name_text(i as nat),
        r.features == features,
        r.wf() == crate::domain::recommendation::distinct_names(features@),
{
    let mut ticker = String::from_str("KRX:");
    push_padded(&mut ticker, i, STUB_NUMBER_WIDTH);
    let mut name = String::from_str("Stub ");
    push_padded(&mut name, i, STUB_NUMBER_WIDTH);
    Candidate { ticker, name, features }
}

/// Whether a universe of this size may be asked for.
pub fn check_size(size: usize) -> (r: Result<(), UniverseError>)
    ensures
        match r {
            Ok(_) => size_ok(size),
            Err(e) => !size_ok(size) && e == (UniverseError::SizeOutOfRange { got: size }),
        },
{
    if size < MIN_UNIVERSE_SIZE || size > MAX_UNIVERSE_SIZE {
        Err(UniverseError::SizeOutOfRange { got: size })
    } else {
        Ok(())
    }
}

} // verus!
