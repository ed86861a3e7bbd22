//! The market-data API of Korea Investment & Securities: which markets are read, how
//! long an access token lasts, and the master files that list the tickers.

use crate::text::{
    bounds_of_fields, chars_of, digit, fields, is_word_ignoring_case, same_text, split_bounds,
    trim, trim_bounds, trimmed, uppered,
};
use crate::time::kr_market::KST_OFFSET_SECS;
use crate::time::{datetime_seconds, parse_datetime, weekend_day, Date, Timestamp, DATE_MIN_DAYS};
use vstd::prelude::*;
use vstd::slice::slice_subrange;
use vstd::string::StringExecFns;

verus! {

/// The address of the API.
pub const PROD_BASE_URL: &'static str = "https://openapi.koreainvestment.com:9443";

/// The master file of the main board.
pub const KOSPI_MASTER_ZIP: &'static str =
    "https://new.real.download.dws.co.kr/common/master/kospi_code.mst.zip";

/// The master file of the growth board.
pub const KOSDAQ_MASTER_ZIP: &'static str =
    "https://new.real.download.dws.co.kr/common/master/kosdaq_code.mst.zip";

/// The master file of the board for small companies.
pub const KONEX_MASTER_ZIP: &'static str =
    "https://new.real.download.dws.co.kr/common/master/konex_code.mst.zip";

/// How long before its end a token is no longer used, in seconds.
pub const TOKEN_REFRESH_MARGIN_SECS: i64 = 120;

/// A market of the Korea Exchange.
#[derive(Debug, Clone, Copy, PartialEq, Eq, Structural)]
pub enum KisMarket {
    Kospi,
    Kosdaq,
    Konex,
}

/// The address of the master file of each market.
pub open spec fn master_zip_text(market: KisMarket) -> Seq<char> {
    match market {
        KisMarket::Kospi => KOSPI_MASTER_ZIP@,
        KisMarket::Kosdaq => KOSDAQ_MASTER_ZIP@,
        KisMarket::Konex => KONEX_MASTER_ZIP@,
    }
}

/// The address of the master file of `market`.
pub fn master_zip_url(market: KisMarket) -> (r: &'static str)
    ensures
        r@ == master_zip_text(market),
{
    match market {
        KisMarket::Kospi => KOSPI_MASTER_ZIP,
        KisMarket::Kosdaq => KOSDAQ_MASTER_ZIP,
        KisMarket::Konex => KONEX_MASTER_ZIP,
    }
}

/// The market that one part of a list names: the part is trimmed, and its case does
/// not count.
pub open spec fn market_of(part: Seq<char>) -> Option<KisMarket> {
    let word = uppered(trimmed(part));
    if word == "KOSPI"@ {
        Some(KisMarket::Kospi)
    } else if word == "KOSDAQ"@ {
        Some(KisMarket::Kosdaq)
    } else if word == "KONEX"@ {
        Some(KisMarket::Konex)
    } else {
        None
    }
}

/// The markets that the parts of a list name, in the list's order.
pub open spec fn markets_of(parts: Seq<Seq<char>>) -> Seq<KisMarket>
    decreases parts.len(),
{
    if parts.len() == 0 {
        Seq::empty()
    } else {
        let before = markets_of(parts.drop_last());
        match market_of(parts.last()) {
            Some(m) => before.push(m),
            None => before,
        }
    }
}

/// The markets that are read where the list names none.
pub open spec fn default_markets() -> Seq<KisMarket> {
    seq![KisMarket::Kospi, KisMarket::Kosdaq]
}

/// The markets that a configured list stands for: those that its parts name, with
/// commas between the parts, or the default where there is no list or it names none.
pub open spec fn configured_markets(list: Option<Seq<char>>) -> Seq<KisMarket> {
    match list {
        Some(text) => if markets_of(fields(text, ',')).len() == 0 {
            default_markets()
        } else {
            markets_of(fields(text, ','))
        },
        None => default_markets(),
    }
}

/// The markets to read. `v` lists them by name, with commas between them; names
/// that are none are passed over.
pub fn parse_markets(v: Option<String>) -> (r: Vec<KisMarket>)
    ensures
        r@ == configured_markets(
            match v {
                Some(s) => Some(s@),
                None => None,
            },
        ),
{
    let mut out: Vec<KisMarket> = Vec::new();
    if let Some(list) = v {
        let text = chars_of(list.as_str());
        let bounds = split_bounds(&text, ',');
        let ghost parts = fields(list@, ',');
        let mut k: usize = 0;
        assert(parts.take(0) =~= Seq::<Seq<char>>::empty());
        while k < bounds.len()
            invariant
                k <= bounds.len(),
                text@ == list@,
                parts == fields(list@, ','),
                bounds_of_fields(bounds@, text@, parts),
                out@ == markets_of(parts.take(k as int)),
            decreases bounds.len() - k,
        {
            let (lo, hi) = bounds[k];
            let ghost part = parts[k as int];
            assert(text@.subrange(lo as int, hi as int) == part);
            let (a, b) = trim_bounds(&text, lo, hi);
            proof {
                assert(parts.take(k + 1).drop_last() =~= parts.take(k as int));
                assert(parts.take(k + 1).last() == part);
            }
            if is_word_ignoring_case(&text, a, b, "KOSPI") {
                out.push(KisMarket::Kospi);
            } else if is_word_ignoring_case(&text, a, b, "KOSDAQ") {
                out.push(KisMarket::Kosdaq);
            } else if is_word_ignoring_case(&text, a, b, "KONEX") {
                out.push(KisMarket::Konex);
            }
            k += 1;
        }
        assert(parts.take(bounds.len() as int) =~= parts);
    }
    if out.len() == 0 {
        out.push(KisMarket::Kospi);
        out.push(KisMarket::Kosdaq);
        assert(out@ =~= default_markets());
    }
    out
}

/// An access token of the API as the API hands it out.
#[derive(Debug, Clone)]
pub struct KisToken {
    pub access_token: String,
    /// When the token ends, as `YYYY-MM-DD HH:MM:SS` in Korean time; empty where the
    /// API did not say.
    pub access_token_token_expired: String,
    /// For how many seconds the token lasts from its issue; 0 where the API did not
    /// say.
    pub expires_in: u64,
}

/// The instant that the API names as a token's end, in seconds from the start of 1970
/// in UTC: the text is trimmed and read as a date and time in Korean time.
pub open spec fn expiry_seconds(text: Seq<char>) -> Option<int> {
    let t = trimmed(text);
    if t.len() == 0 {
        None
    } else {
        match datetime_seconds(t) {
            Some(local) => if local - KST_OFFSET_SECS >= i64::MIN {
                Some(local - KST_OFFSET_SECS)
            } else {
                None
            },
            None => None,
        }
    }
}

/// Whether the instant `a` is the instant `b` or a later one.
pub open spec fn at_or_after(a_secs: int, a_nanos: int, b_secs: int, b_nanos: int) -> bool {
    a_secs > b_secs || (a_secs == b_secs && a_nanos >= b_nanos)
}

/// Whether a token is no longer to be used at `now`: two minutes before its end it
/// counts as ended. The end is the instant that the API named; where it named none,
/// as many seconds after `fetched_at` as the token lasts; and a token of which
/// neither is known is never used.
pub open spec fn expired_or_stale(token: KisToken, fetched_at: Timestamp, now: Timestamp) -> bool {
    match expiry_seconds(token.access_token_token_expired@) {
        Some(end) => at_or_after(now.secs + TOKEN_REFRESH_MARGIN_SECS, now.nanos as int, end, 0),
        None => if token.expires_in > 0 {
            at_or_after(
                now.secs + TOKEN_REFRESH_MARGIN_SECS,
                now.nanos as int,
                fetched_at.secs + token.expires_in,
                fetched_at.nanos as int,
            )
        } else {
            true
        },
    }
}

/// The instant that the API names as a token's end, where `s` is one.
pub fn parse_kis_expiry_utc(s: &str) -> (r: Option<Timestamp>)
    ensures
        match r {
            Some(t) => expiry_seconds(s@) == Some(t.secs as int) && t.nanos == 0,
            None => expiry_seconds(s@) is None,
        },
{
    let t = trim(s);
    if t.as_str().is_empty() {
        return None;
    }
    match parse_datetime(t.as_str()) {
        Some(local) => match local.checked_sub(KST_OFFSET_SECS) {
            Some(secs) => Some(Timestamp { secs, nanos: 0 }),
            None => None,
        },
        None => None,
    }
}

impl KisToken {
    /// Whether the token, which was fetched at `fetched_at`, is no longer to be used at
    /// `now`.
    pub fn is_expired_or_stale(&self, fetched_at: Timestamp, now: Timestamp) -> (r: bool)
        ensures
            r == expired_or_stale(*self, fetched_at, now),
    {
        let soon: i128 = now.secs as i128 + TOKEN_REFRESH_MARGIN_SECS as i128;
        if let Some(end) = parse_kis_expiry_utc(self.access_token_token_expired.as_str()) {
            return soon >= end.secs as i128;
        }
        if self.expires_in > 0 {
            let end: i128 = fetched_at.secs as i128 + self.expires_in as i128;
            return soon > end || (soon == end && now.nanos >= fetched_at.nanos);
        }
        true
    }
}

/// A token and the instant at which it was taken into the cache.
#[derive(Debug, Clone)]
pub struct CachedToken {
    pub token: KisToken,
    pub fetched_at: Timestamp,
}

/// The tokens of a client: the one it holds, and whether a store is shared with other
/// processes, in which tokens outlive this one.
#[derive(Debug, Clone)]
pub struct TokenCache {
    pub cached: Option<CachedToken>,
    pub shared_store: bool,
}

/// What a client that needs a token does next.
#[derive(Debug, Clone)]
pub enum TokenStep {
    /// Use this token.
    Use(KisToken),
    /// Read the token of the shared store and hand it to [`TokenCache::on_shared`].
    LoadShared,
    /// Have a new token issued and hand it to [`TokenCache::on_fetched`].
    Fetch,
}

/// Whether the cache holds a token that can be used at `now`.
pub open spec fn cache_fresh(cache: TokenCache, now: Timestamp) -> bool {
    cache.cached matches Some(c) && !expired_or_stale(c.token, c.fetched_at, now)
}

/// Whether a token that the shared store handed out can be used at `now`. It counts
/// as fetched when it is read.
pub open spec fn shared_fresh(loaded: Option<KisToken>, now: Timestamp) -> bool {
    loaded matches Some(t) && !expired_or_stale(t, now, now)
}

impl KisToken {
    /// A copy of the token.
    pub fn duplicate(&self) -> (r: KisToken)
        ensures
            r == *self,
    {
        KisToken {
            access_token: self.access_token.clone(),
            access_token_token_expired: self.access_token_token_expired.clone(),
            expires_in: self.expires_in,
        }
    }
}

impl TokenCache {
    /// A cache that holds no token.
    pub fn new(shared_store: bool) -> (r: TokenCache)
        ensures
            r.cached is None,
            r.shared_store == shared_store,
    {
        TokenCache { cached: None, shared_store }
    }

    /// What to do for a token at `now`: the cached one is used while it lasts; else the
    /// shared store is asked, where there is one; else a new token is issued.
    pub fn lookup(&self, now: Timestamp) -> (r: TokenStep)
        ensures
            match r {
                TokenStep::Use(t) => cache_fresh(*self, now) && t == self.cached->0.token,
                TokenStep::LoadShared => !cache_fresh(*self, now) && self.shared_store,
                TokenStep::Fetch => !cache_fresh(*self, now) && !self.shared_store,
            },
    {
        if let Some(c) = &self.cached {
            if !c.token.is_expired_or_stale(c.fetched_at, now) {
                return TokenStep::Use(c.token.duplicate());
            }
        }
        if self.shared_store {
            TokenStep::LoadShared
        } else {
            TokenStep::Fetch
        }
    }

    /// Takes what the shared store holds. A token that can be used at `now` is cached,
    /// as fetched at `now`, and used; else a new token is issued.
    pub fn on_shared(&mut self, loaded: Option<KisToken>, now: Timestamp) -> (r: TokenStep)
        ensures
            final(self).shared_store == old(self).shared_store,
            if shared_fresh(loaded, now) {
                &&& r == TokenStep::Use(loaded->0)
                &&& final(self).cached == Some(CachedToken { token: loaded->0, fetched_at: now })
            } else {
                r is Fetch && final(self).cached == old(self).cached
            },
    {
        if let Some(token) = loaded {
            if !token.is_expired_or_stale(now, now) {
                let copy = token.duplicate();
                self.cached = Some(CachedToken { token, fetched_at: now });
                return TokenStep::Use(copy);
            }
        }
        TokenStep::Fetch
    }

    /// Takes a token that was issued at `fetched_at` into the cache. The result says
    /// whether the token is to be written to the shared store as well.
    pub fn on_fetched(&mut self, token: KisToken, fetched_at: Timestamp) -> (write_back: bool)
        ensures
            final(self).shared_store == old(self).shared_store,
            final(self).cached == Some(CachedToken { token, fetched_at }),
            write_back == old(self).shared_store,
    {
        self.cached = Some(CachedToken { token, fetched_at });
        self.shared_store
    }
}

/// The last position before `until` of a text that is `wanted`.
pub open spec fn last_text_index(texts: Seq<String>, wanted: Seq<char>, until: int) -> Option<int>
    decreases until,
{
    if until <= 0 || until > texts.len() {
        None
    } else if texts[until - 1]@ == wanted {
        Some(until - 1)
    } else {
        last_text_index(texts, wanted, until - 1)
    }
}

/// Which of the daily bars of an answer are read: the last one of the day before and
/// the last one of the day itself, by their positions.
#[derive(Clone, Copy, Debug, PartialEq, Eq, Structural)]
pub struct BarPick {
    pub previous: Option<usize>,
    pub as_of: Option<usize>,
}

/// The position as a mathematical value.
pub open spec fn position(p: Option<usize>) -> Option<int> {
    match p {
        Some(i) => Some(i as int),
        None => None,
    }
}

/// The bars to read among those with the dates `dates`, written as `YYYYMMDD`: for the
/// day before and for the day itself the last bar of that date.
pub fn pick_bars(dates: &Vec<String>, previous_ymd: &str, as_of_ymd: &str) -> (r: BarPick)
    ensures
        position(r.previous) == last_text_index(dates@, previous_ymd@, dates@.len() as int),
        position(r.as_of) == last_text_index(dates@, as_of_ymd@, dates@.len() as int),
{
    let mut previous: Option<usize> = None;
    let mut as_of: Option<usize> = None;
    let mut i: usize = 0;
    while i < dates.len()
        invariant
            i <= dates.len(),
            position(previous) == last_text_index(dates@, previous_ymd@, i as int),
            position(as_of) == last_text_index(dates@, as_of_ymd@, i as int),
        decreases dates.len() - i,
    {
        if same_text(dates[i].as_str(), previous_ymd) {
            previous = Some(i);
        }
        if same_text(dates[i].as_str(), as_of_ymd) {
            as_of = Some(i);
        }
        i += 1;
    }
    BarPick { previous, as_of }
}

/// The last day before the day with number `days` that is no weekend.
pub open spec fn weekday_before(days: int) -> Option<int>
    decreases days - DATE_MIN_DAYS + 1,
{
    if days <= DATE_MIN_DAYS {
        None
    } else if !weekend_day(days - 1) {
        Some(days - 1)
    } else {
        weekday_before(days - 1)
    }
}

/// The last day before `d` that is no weekend, where a date can hold it. Holidays are
/// not looked at.
pub fn previous_business_day(d: Date) -> (r: Option<Date>)
    ensures
        match r {
            Some(p) => weekday_before(d@) == Some(p@),
            None => weekday_before(d@) is None,
        },
{
    let mut date = d;
    loop
        invariant
            weekday_before(d@) == weekday_before(date@),
        decreases date@ - DATE_MIN_DAYS,
    {
        match date.pred() {
            Some(before) => {
                if !before.is_weekend() {
                    return Some(before);
                }
                date = before;
            },
            None => {
                return None;
            },
        }
    }
}

/// The most bytes of a master file that are taken: a sixteenth of what the machine
/// can count. The decoder reserves room for up to six times the length of what it is
/// handed and a few bytes more, which must stay within what a string can hold.
pub const MAX_MASTER_BYTES: usize = usize::MAX / 16;

/// The text that `encoding_rs::EUC_KR.decode` makes of `bytes`: the decoding of the
/// bytes as EUC-KR, with each malformed sequence replaced by U+FFFD, unless the bytes
/// begin with a byte order mark of another encoding.
pub uninterp spec fn euc_kr_text(bytes: Seq<u8>) -> Seq<char>;

/// Calls `encoding_rs::EUC_KR.decode`, which takes any bytes, and keeps the text. The
/// text is [`euc_kr_text`] by definition. The call panics only where the room that it
/// reserves, at most six times the length and a few bytes, cannot be counted or held,
/// which the bound on the length rules out.
#[verifier::external_body]
fn decode_euc_kr(bytes: &[u8]) -> (r: String)
    requires
        bytes@.len() <= MAX_MASTER_BYTES,
    ensures
        r@ == euc_kr_text(bytes@),
{
    let (text, _, _) = encoding_rs::EUC_KR.decode(bytes);
    text.into_owned()
}

/// A ticker of a master file.
#[derive(Debug, Clone)]
pub struct KisMasterRecord {
    pub code: String,
    pub name: String,
}

/// What a record says, as mathematical values.
pub struct RecordView {
    pub code: Seq<char>,
    pub name: Seq<char>,
}

impl View for KisMasterRecord {
    type V = RecordView;

    open spec fn view(&self) -> RecordView {
        RecordView { code: self.code@, name: self.name@ }
    }
}

/// Whether `b` is ASCII whitespace: a space, a tab, a line feed, a form feed or a
/// carriage return.
pub open spec fn ascii_space(b: u8) -> bool {
    b == 0x20 || b == 0x09 || b == 0x0A || b == 0x0C || b == 0x0D
}

/// Whether `b` is an ASCII digit.
pub open spec fn ascii_digit(b: u8) -> bool {
    0x30 <= b <= 0x39
}

/// Whether `b` pads a field: ASCII whitespace or a zero byte.
pub open spec fn pad_byte(b: u8) -> bool {
    ascii_space(b) || b == 0
}

/// The first position at or after `from` where `bytes` begins a market marker: the
/// letters `ST` at the start or after whitespace.
pub open spec fn st_marker_from(bytes: Seq<u8>, from: int) -> Option<int>
    decreases bytes.len() - from,
{
    if from < 0 || from + 1 >= bytes.len() {
        None
    } else if bytes[from] == 0x53 && bytes[from + 1] == 0x54 && (from == 0 || ascii_space(
        bytes[from - 1],
    )) {
        Some(from)
    } else {
        st_marker_from(bytes, from + 1)
    }
}

/// The first position where `bytes` begins a market marker.
pub open spec fn st_marker(bytes: Seq<u8>) -> Option<int> {
    st_marker_from(bytes, 0)
}

/// The first position at or after `from` whose byte is no ASCII whitespace, or the
/// length.
pub open spec fn skip_spaces(bytes: Seq<u8>, from: int) -> int
    decreases bytes.len() - from,
{
    if from < 0 || from >= bytes.len() {
        bytes.len() as int
    } else if !ascii_space(bytes[from]) {
        from
    } else {
        skip_spaces(bytes, from + 1)
    }
}

/// The first position at or after `from` whose byte is ASCII whitespace, or the
/// length.
pub open spec fn skip_word(bytes: Seq<u8>, from: int) -> int
    decreases bytes.len() - from,
{
    if from < 0 || from >= bytes.len() {
        bytes.len() as int
    } else if ascii_space(bytes[from]) {
        from
    } else {
        skip_word(bytes, from + 1)
    }
}

/// `bytes` without the padding at its front.
pub open spec fn skip_pad_front(bytes: Seq<u8>) -> Seq<u8>
    decreases bytes.len(),
{
    if bytes.len() > 0 && pad_byte(bytes[0]) {
        skip_pad_front(bytes.drop_first())
    } else {
        bytes
    }
}

/// `bytes` without the padding at its end.
pub open spec fn skip_pad_back(bytes: Seq<u8>) -> Seq<u8>
    decreases bytes.len(),
{
    if bytes.len() > 0 && pad_byte(bytes.last()) {
        skip_pad_back(bytes.drop_last())
    } else {
        bytes
    }
}

/// The name in a field of a master file: the field without its padding, decoded from
/// EUC-KR and trimmed.
pub open spec fn name_text(field: Seq<u8>) -> Seq<char> {
    trimmed(euc_kr_text(skip_pad_back(skip_pad_front(field))))
}

/// The text of six ASCII digits.
pub open spec fn code_text(bytes: Seq<u8>) -> Seq<char> {
    Seq::new(6, |k: int| digit(bytes[k] - 0x30))
}

/// Where the name begins in a line: twelve bytes after the identifier begins, which
/// follows the code after whitespace; in a line too short for that, after the word
/// that follows the code.
pub open spec fn name_start(line: Seq<u8>) -> int {
    let isin = skip_spaces(line, 6);
    if line.len() >= isin + 12 {
        isin + 12
    } else {
        skip_word(line, isin)
    }
}

/// A line without the carriage return at its end.
pub open spec fn without_cr(line: Seq<u8>) -> Seq<u8> {
    if line.len() > 0 && line.last() == 0x0D {
        line.drop_last()
    } else {
        line
    }
}

/// The record of one line of a master file: a code of six digits, an identifier, a
/// name up to the market marker. A line of another form has none.
pub open spec fn record_of_line(raw: Seq<u8>) -> Option<RecordView> {
    let line = without_cr(raw);
    if line.len() < 6 {
        None
    } else if !(forall|k: int| 0 <= k < 6 ==> ascii_digit(#[trigger] line[k])) {
        None
    } else if name_start(line) >= line.len() {
        None
    } else {
        let rest = line.skip(name_start(line));
        let field = match st_marker(rest) {
            Some(p) => rest.take(p),
            None => rest,
        };
        if name_text(field).len() == 0 {
            None
        } else {
            Some(RecordView { code: code_text(line), name: name_text(field) })
        }
    }
}

/// The end of the line that begins at `from`: the position of the next line feed, or
/// the length.
pub open spec fn line_end(buf: Seq<u8>, from: int) -> int
    decreases buf.len() - from,
{
    if from < 0 || from >= buf.len() {
        buf.len() as int
    } else if buf[from] == 0x0A {
        from
    } else {
        line_end(buf, from + 1)
    }
}

/// The records of the lines of `buf` from position `from` on.
pub open spec fn records_from(buf: Seq<u8>, from: int) -> Seq<RecordView>
    decreases buf.len() - from + 1,
{
    if from < 0 || from > buf.len() {
        Seq::empty()
    } else {
        let end = line_end(buf, from);
        let here = match record_of_line(buf.subrange(from, end)) {
            Some(r) => seq![r],
            None => Seq::empty(),
        };
        if from <= end < buf.len() {
            here + records_from(buf, end + 1)
        } else {
            here
        }
    }
}

/// The records of a master file: those of its lines that have one, in order.
pub open spec fn master_records(buf: Seq<u8>) -> Seq<RecordView> {
    records_from(buf, 0)
}

/// The views of records.
pub open spec fn record_views(records: Seq<KisMasterRecord>) -> Seq<RecordView> {
    Seq::new(records.len(), |i: int| records[i]@)
}

/// What [`line_end`] finds: no line feed stands before it, and one stands at it unless
/// it is the length.
pub proof fn lemma_line_end(buf: Seq<u8>, from: int, end: int)
    requires
        0 <= from <= end <= buf.len(),
        forall|j: int| from <= j < end ==> #[trigger] buf[j] != 0x0A,
        end < buf.len() ==> buf[end] == 0x0A,
    ensures
        line_end(buf, from) == end,
    decreases end - from,
{
    if from < end {
        lemma_line_end(buf, from + 1, end);
    }
}

/// What [`skip_spaces`] finds.
pub proof fn lemma_skip_spaces(bytes: Seq<u8>, from: int, at: int)
    requires
        0 <= from <= at <= bytes.len(),
        forall|j: int| from <= j < at ==> ascii_space(#[trigger] bytes[j]),
        at < bytes.len() ==> !ascii_space(bytes[at]),
    ensures
        skip_spaces(bytes, from) == at,
    decreases at - from,
{
    if from < at {
        lemma_skip_spaces(bytes, from + 1, at);
    }
}

/// What [`skip_word`] finds.
pub proof fn lemma_skip_word(bytes: Seq<u8>, from: int, at: int)
    requires
        0 <= from <= at <= bytes.len(),
        forall|j: int| from <= j < at ==> !ascii_space(#[trigger] bytes[j]),
        at < bytes.len() ==> ascii_space(bytes[at]),
    ensures
        skip_word(bytes, from) == at,
    decreases at - from,
{
    if from < at {
        lemma_skip_word(bytes, from + 1, at);
    }
}

/// Skipping `k` padding bytes that are followed by another byte, or by the end, is what
/// [`skip_pad_front`] does.
pub proof fn lemma_skip_pad_front(bytes: Seq<u8>, k: int)
    requires
        0 <= k <= bytes.len(),
        forall|i: int| 0 <= i < k ==> pad_byte(#[trigger] bytes[i]),
        k < bytes.len() ==> !pad_byte(bytes[k]),
    ensures
        skip_pad_front(bytes) == bytes.subrange(k, bytes.len() as int),
    decreases k,
{
    if k == 0 {
        assert(bytes.subrange(0, bytes.len() as int) =~= bytes);
    } else {
        let t = bytes.drop_first();
        assert forall|i: int| 0 <= i < k - 1 implies pad_byte(#[trigger] t[i]) by {
            assert(t[i] == bytes[i + 1]);
        }
        lemma_skip_pad_front(t, k - 1);
        assert(t.subrange(k - 1, t.len() as int) =~= bytes.subrange(k, bytes.len() as int));
    }
}

/// Keeping the first `k` bytes, where only padding follows and the last one kept is
/// none, is what [`skip_pad_back`] does.
pub proof fn lemma_skip_pad_back(bytes: Seq<u8>, k: int)
    requires
        0 <= k <= bytes.len(),
        forall|i: int| k <= i < bytes.len() ==> pad_byte(#[trigger] bytes[i]),
        k > 0 ==> !pad_byte(bytes[k - 1]),
    ensures
        skip_pad_back(bytes) == bytes.subrange(0, k),
    decreases bytes.len() - k,
{
    if k == bytes.len() {
        assert(bytes.subrange(0, k) =~= bytes);
    } else {
        let t = bytes.drop_last();
        assert forall|i: int| k <= i < t.len() implies pad_byte(#[trigger] t[i]) by {
            assert(t[i] == bytes[i]);
        }
        lemma_skip_pad_back(t, k);
        assert(t.subrange(0, k) =~= bytes.subrange(0, k));
    }
}

/// Whether `b` is ASCII whitespace.
fn is_ascii_space(b: u8) -> (r: bool)
    ensures
        r == ascii_space(b),
{
    b == 0x20 || b == 0x09 || b == 0x0A || b == 0x0C || b == 0x0D
}

/// The first position in `bytes` that begins a market marker: the letters `ST` at the
/// start or after whitespace.
pub fn find_st_marker(bytes: &[u8]) -> (r: Option<usize>)
    ensures
        match r {
            Some(i) => st_marker(bytes@) == Some(i as int) && i + 1 < bytes@.len(),
            None => st_marker(bytes@) is None,
        },
{
    let mut i: usize = 0;
    while i < bytes.len() && i + 1 < bytes.len()
        invariant
            i <= bytes.len(),
            st_marker(bytes@) == st_marker_from(bytes@, i as int),
        decreases bytes.len() - i,
    {
        if bytes[i] == 0x53 && bytes[i + 1] == 0x54 {
            if i == 0 || is_ascii_space(bytes[i - 1]) {
                return Some(i);
            }
        }
        i += 1;
    }
    None
}

/// The name in a field of a master file: the field without the whitespace and the zero
/// bytes around it, decoded from EUC-KR and trimmed.
pub(crate) fn decode_euc_kr_trim(bytes: &[u8]) -> (r: String)
    requires
        bytes@.len() <= MAX_MASTER_BYTES,
    ensures
        r@ == name_text(bytes@),
{
    let mut start: usize = 0;
    let mut end: usize = bytes.len();
    while start < end && (is_ascii_space(bytes[start]) || bytes[start] == 0)
        invariant
            start <= end,
            end == bytes.len(),
            forall|i: int| 0 <= i < start ==> pad_byte(#[trigger] bytes@[i]),
        decreases end - start,
    {
        start += 1;
    }
    while end > start && (is_ascii_space(bytes[end - 1]) || bytes[end - 1] == 0)
        invariant
            start <= end <= bytes.len(),
            forall|i: int| end <= i < bytes.len() ==> pad_byte(#[trigger] bytes@[i]),
        decreases end,
    {
        end -= 1;
    }
    proof {
        let front = bytes@.subrange(start as int, bytes@.len() as int);
        lemma_skip_pad_front(bytes@, start as int);
        lemma_skip_pad_back(front, end - start);
        assert(front.subrange(0, end - start) =~= bytes@.subrange(start as int, end as int));
    }
    let text = decode_euc_kr(slice_subrange(bytes, start, end));
    trim(text.as_str())
}

/// The one-character text of the ASCII digit `b`.
fn push_code_digit(out: &mut String, b: u8)
    requires
        ascii_digit(b),
    ensures
        final(out)@ == old(out)@.push(digit(b - 0x30)),
{
    proof {
        reveal_strlit("0");
        reveal_strlit("1");
        reveal_strlit("2");
        reveal_strlit("3");
        reveal_strlit("4");
        reveal_strlit("5");
        reveal_strlit("6");
        reveal_strlit("7");
        reveal_strlit("8");
        reveal_strlit("9");
    }
    let d = b - 0x30;
    let text = if d == 0 {
        "0"
    } else if d == 1 {
        "1"
    } else if d == 2 {
        "2"
    } else if d == 3 {
        "3"
    } else if d == 4 {
        "4"
    } else if d == 5 {
        "5"
    } else if d == 6 {
        "6"
    } else if d == 7 {
        "7"
    } else if d == 8 {
        "8"
    } else {
        "9"
    };
    out.append(text);
    assert(out@ =~= old(out)@.push(digit(b - 0x30)));
}

/// The record of one line of a master file, where the line has one.
fn parse_master_line(raw: &[u8]) -> (r: Option<KisMasterRecord>)
    requires
        raw@.len() <= MAX_MASTER_BYTES,
    ensures
        match r {
            Some(record) => record_of_line(raw@) == Some(record@),
            None => record_of_line(raw@) is None,
        },
{
    let n = if raw.len() > 0 && raw[raw.len() - 1] == 0x0D {
        raw.len() - 1
    } else {
        raw.len()
    };
    let line = slice_subrange(raw, 0, n);
    assert(line@ =~= without_cr(raw@));
    if n < 6 {
        return None;
    }
    let mut code = String::new();
    let mut k: usize = 0;
    while k < 6
        invariant
            k <= 6,
            line@.len() >= 6,
            line@ == without_cr(raw@),
            forall|j: int| 0 <= j < k ==> ascii_digit(#[trigger] line@[j]),
            code@.len() == k,
            forall|j: int| 0 <= j < k ==> code@[j] == digit(line@[j] - 0x30),
        decreases 6 - k,
    {
        let b = line[k];
        if b < 0x30 || b > 0x39 {
            assert(!ascii_digit(line@[k as int]));
            return None;
        }
        push_code_digit(&mut code, b);
        k += 1;
    }
    assert(code@ =~= code_text(line@));
    let mut i: usize = 6;
    while i < n && is_ascii_space(line[i])
        invariant
            6 <= i <= n,
            n == line@.len(),
            forall|j: int| 6 <= j < i ==> ascii_space(#[trigger] line@[j]),
        decreases n - i,
    {
        i += 1;
    }
    proof {
        lemma_skip_spaces(line@, 6, i as int);
    }
    let start = if n - i >= 12 {
        i + 12
    } else {
        let mut w: usize = i;
        while w < n && !is_ascii_space(line[w])
            invariant
                i <= w <= n,
                n == line@.len(),
                forall|j: int| i <= j < w ==> !ascii_space(#[trigger] line@[j]),
            decreases n - w,
        {
            w += 1;
        }
        proof {
            lemma_skip_word(line@, i as int, w as int);
        }
        w
    };
    assert(start == name_start(line@));
    if start >= n {
        return None;
    }
    let rest = slice_subrange(line, start, n);
    assert(rest@ =~= line@.skip(start as int));
    let stop = match find_st_marker(rest) {
        Some(p) => p,
        None => rest.len(),
    };
    let field = slice_subrange(rest, 0, stop);
    assert(field@ =~= match st_marker(rest@) {
        Some(p) => rest@.take(p),
        None => rest@,
    });
    let name = decode_euc_kr_trim(field);
    if name.as_str().is_empty() {
        return None;
    }
    Some(KisMasterRecord { code, name })
}

/// A master file of more bytes than are taken.
#[derive(Clone, Copy, Debug, PartialEq, Eq, Structural)]
pub struct MasterTooLarge {
    pub len: usize,
}

/// The tickers of a master file: one for each line that begins with a code of six
/// digits and has a name. A file of more than [`MAX_MASTER_BYTES`] bytes is not read.
pub fn parse_master_lines(buf: &[u8]) -> (r: Result<Vec<KisMasterRecord>, MasterTooLarge>)
    ensures
        match r {
            Ok(records) => buf@.len() <= MAX_MASTER_BYTES && record_views(records@)
                == master_records(buf@),
            Err(e) => buf@.len() > MAX_MASTER_BYTES && e.len == buf@.len(),
        },
{
    if buf.len() > MAX_MASTER_BYTES {
        return Err(MasterTooLarge { len: buf.len() });
    }
    let mut out: Vec<KisMasterRecord> = Vec::new();
    let mut from: usize = 0;
    let ghost mut done: Seq<RecordView> = Seq::empty();
    assert(record_views(out@) =~= done);
    loop
        invariant
            from <= buf.len(),
            buf@.len() <= MAX_MASTER_BYTES,
            record_views(out@) == done,
            master_records(buf@) == done + records_from(buf@, from as int),
        decreases buf.len() - from,
    {
        let mut end: usize = from;
        while end < buf.len() && buf[end] != 0x0A
            invariant
                from <= end <= buf.len(),
                forall|j: int| from <= j < end ==> #[trigger] buf@[j] != 0x0A,
            decreases buf.len() - end,
        {
            end += 1;
        }
        proof {
            lemma_line_end(buf@, from as int, end as int);
        }
        let ghost here: Seq<RecordView> = match record_of_line(
            buf@.subrange(from as int, end as int),
        ) {
            Some(r) => seq![r],
            None => Seq::empty(),
        };
        match parse_master_line(slice_subrange(buf, from, end)) {
            Some(record) => {
                out.push(record);
                assert(record_views(out@) =~= done + here);
            },
            None => {
                assert(record_views(out@) =~= done + here);
            },
        }
        if end == buf.len() {
            assert(master_records(buf@) =~= done + here);
            return Ok(out);
        }
        proof {
            assert(master_records(buf@) =~= (done + here) + records_from(buf@, end + 1));
            done = done + here;
        }
        from = end + 1;
    }
}

} // verus!
