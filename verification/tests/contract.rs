use chrono::{DateTime, Datelike, NaiveDate, TimeZone, Utc};
use serde_json::{Number, Value};
use tootoo::domain::contract::{LlmRecommendationItem, LlmRecommendationSnapshot, ValidationError};
use tootoo::domain::number::Binary64;
use tootoo::domain::recommendation::RecommendationSnapshot;
use tootoo::llm::anthropic::{response_tool_snapshot, ContentBlock};
use tootoo::llm::json::json_payload;
use tootoo::time::{Date, Timestamp};

fn day(y: i32, m: u32, d: u32) -> Date {
    Date::from_ymd(y, m, d).unwrap()
}

fn number(x: f64) -> Binary64 {
    Binary64::from_bits(x.to_bits())
}

fn raw_item(rank: i32) -> LlmRecommendationItem {
    LlmRecommendationItem {
        rank,
        ticker: format!("KRX:{rank:06}"),
        name: format!("Name {rank}"),
        rationale: vec!["a".to_string(), "b".to_string(), "c".to_string()],
        risk_notes: None,
        confidence: Some(number(0.5)),
    }
}

fn raw_snapshot(as_of: Date) -> LlmRecommendationSnapshot {
    LlmRecommendationSnapshot {
        as_of_date: as_of,
        generated_at: Timestamp { secs: 1_769_508_000, nanos: 0 },
        items: (1..=20).map(raw_item).collect(),
    }
}

fn as_raw(s: &RecommendationSnapshot) -> LlmRecommendationSnapshot {
    LlmRecommendationSnapshot {
        as_of_date: s.as_of_date,
        generated_at: s.generated_at,
        items: s
            .items
            .iter()
            .map(|i| LlmRecommendationItem {
                rank: i.rank,
                ticker: i.ticker.clone(),
                name: i.name.clone(),
                rationale: i.rationale.to_vec(),
                risk_notes: i.risk_notes.clone(),
                confidence: i.confidence,
            })
            .collect(),
    }
}

fn object(fields: Vec<(&str, Value)>) -> Value {
    let mut map = serde_json::Map::new();
    for (key, value) in fields {
        map.insert(key.to_string(), value);
    }
    Value::Object(map)
}

fn texts(lines: &[&str]) -> Value {
    Value::Array(lines.iter().map(|l| Value::String(l.to_string())).collect())
}

fn item_json(rank: i64, optional_keys: bool) -> Value {
    let mut fields = vec![
        ("rank", Value::from(rank)),
        ("ticker", Value::String(format!("KRX:{rank:06}"))),
        ("name", Value::String(format!("Name {rank}"))),
        ("rationale", texts(&["a", "b", "c"])),
    ];
    if optional_keys {
        fields.push(("risk_notes", Value::Null));
        fields.push(("confidence", Value::Number(Number::from_f64(0.5).unwrap())));
    }
    object(fields)
}

fn snapshot_json(as_of: NaiveDate, generated_at: DateTime<Utc>, items: Vec<Value>) -> Value {
    object(vec![
        ("as_of_date", Value::String(as_of.to_string())),
        ("generated_at", Value::String(generated_at.to_rfc3339())),
        ("items", Value::Array(items)),
    ])
}

fn valid_snapshot_json(as_of: NaiveDate) -> String {
    let generated_at = Utc.with_ymd_and_hms(2026, 1, 27, 10, 0, 0).unwrap();
    snapshot_json(as_of, generated_at, (1..=20).map(|rank| item_json(rank, true)).collect())
        .to_string()
}

fn text_of(v: Option<&Value>) -> Option<String> {
    v?.as_str().map(|s| s.to_string())
}

/// What a decoder of the snapshot's form makes of a JSON value.
fn decode_value(v: &Value) -> Option<LlmRecommendationSnapshot> {
    let as_of = NaiveDate::parse_from_str(v.get("as_of_date")?.as_str()?, "%Y-%m-%d").ok()?;
    let generated_at = DateTime::parse_from_rfc3339(v.get("generated_at")?.as_str()?).ok()?;
    let mut items = Vec::new();
    for item in v.get("items")?.as_array()? {
        let mut rationale = Vec::new();
        for line in item.get("rationale")?.as_array()? {
            rationale.push(line.as_str()?.to_string());
        }
        let risk_notes = match item.get("risk_notes") {
            None | Some(Value::Null) => None,
            Some(other) => Some(other.as_str()?.to_string()),
        };
        let confidence = match item.get("confidence") {
            None | Some(Value::Null) => None,
            Some(other) => Some(number(other.as_f64()?)),
        };
        items.push(LlmRecommendationItem {
            rank: i32::try_from(item.get("rank")?.as_i64()?).ok()?,
            ticker: text_of(item.get("ticker"))?,
            name: text_of(item.get("name"))?,
            rationale,
            risk_notes,
            confidence,
        });
    }
    Some(LlmRecommendationSnapshot {
        as_of_date: Date::from_days(as_of.num_days_from_ce())?,
        generated_at: Timestamp {
            secs: generated_at.timestamp(),
            nanos: generated_at.timestamp_subsec_nanos(),
        },
        items,
    })
}

/// The payload of a text, decoded and held to the contract for `expected`.
fn parse_snapshot(text: &str, expected: NaiveDate) -> Result<RecommendationSnapshot, String> {
    let payload = json_payload(text);
    let value = serde_json::from_str::<Value>(&payload).map_err(|e| e.to_string())?;
    let raw = decode_value(&value).ok_or("not of the snapshot's form")?;
    raw.validate_and_into_snapshot(Date::from_days(expected.num_days_from_ce()).unwrap())
        .map_err(|e| e.message())
}

/// A snapshot written as JSON, as the store and the readers of snapshots see it.
fn encode(s: &RecommendationSnapshot) -> String {
    let items = s
        .items
        .iter()
        .map(|i| {
            object(vec![
                ("rank", Value::from(i.rank)),
                ("ticker", Value::String(i.ticker.clone())),
                ("name", Value::String(i.name.clone())),
                ("rationale", Value::Array(i.rationale.iter().cloned().map(Value::String).collect())),
                ("risk_notes", i.risk_notes.clone().map(Value::String).unwrap_or(Value::Null)),
                (
                    "confidence",
                    i.confidence
                        .map(|c| Value::Number(Number::from_f64(f64::from_bits(c.to_bits())).unwrap()))
                        .unwrap_or(Value::Null),
                ),
            ])
        })
        .collect();
    let as_of = NaiveDate::from_num_days_from_ce_opt(s.as_of_date.days_from_ce()).unwrap();
    let generated_at = DateTime::from_timestamp(s.generated_at.secs, s.generated_at.nanos).unwrap();
    snapshot_json(as_of, generated_at, items).to_string()
}

#[test]
fn parse_snapshot_accepts_valid_json() {
    let as_of = NaiveDate::from_ymd_opt(2026, 1, 27).unwrap();
    let json = valid_snapshot_json(as_of);
    let snapshot = parse_snapshot(&json, as_of).unwrap();
    assert_eq!(snapshot.items.len(), 20);
    assert_eq!(snapshot.as_of_date, day(2026, 1, 27));
    assert_eq!(snapshot.items[0].rank, 1);
}

#[test]
fn parse_snapshot_rejects_wrong_as_of_date() {
    let as_of = NaiveDate::from_ymd_opt(2026, 1, 27).unwrap();
    let other = NaiveDate::from_ymd_opt(2026, 1, 26).unwrap();
    let json = valid_snapshot_json(other);
    assert!(parse_snapshot(&json, as_of).is_err());
    assert_eq!(
        parse_snapshot(&json, as_of).unwrap_err(),
        "LLM output as_of_date mismatch: expected 2026-01-27, got 2026-01-26"
    );
}

#[test]
fn parse_snapshot_rejects_wrong_item_count() {
    let as_of = NaiveDate::from_ymd_opt(2026, 1, 27).unwrap();
    let generated_at = Utc.with_ymd_and_hms(2026, 1, 27, 10, 0, 0).unwrap();
    let json = snapshot_json(as_of, generated_at, Vec::new()).to_string();
    assert!(parse_snapshot(&json, as_of).is_err());
    assert_eq!(
        parse_snapshot(&json, as_of).unwrap_err(),
        "LLM output must contain exactly 20 items (got 0)"
    );
}

#[test]
fn parse_snapshot_accepts_missing_optional_keys() {
    let as_of = NaiveDate::from_ymd_opt(2026, 1, 27).unwrap();
    let generated_at = Utc.with_ymd_and_hms(2026, 1, 27, 10, 0, 0).unwrap();
    // risk_notes and confidence are optional.
    let items: Vec<Value> = (1..=20).map(|rank| item_json(rank, false)).collect();
    let json = snapshot_json(as_of, generated_at, items).to_string();

    let snapshot = parse_snapshot(&json, as_of).unwrap();
    assert_eq!(snapshot.items.len(), 20);
    assert!(snapshot.items.iter().all(|i| i.confidence.is_none() && i.risk_notes.is_none()));
}

#[test]
fn parse_snapshot_reads_fenced_and_wrapped_json() {
    let as_of = NaiveDate::from_ymd_opt(2026, 1, 27).unwrap();
    let json = valid_snapshot_json(as_of);
    assert!(parse_snapshot(&format!("```json\n{json}\n```\n"), as_of).is_ok());
    assert!(parse_snapshot(&format!("Here it is: {json} I hope it helps."), as_of).is_ok());
    assert!(parse_snapshot("no json here", as_of).is_err());
}

#[test]
fn parses_tool_use_snapshot_input() {
    let as_of = NaiveDate::from_ymd_opt(2026, 1, 28).unwrap();
    let generated_at = Utc.with_ymd_and_hms(2026, 1, 28, 9, 0, 0).unwrap();
    let items: Vec<Value> = (1..=20).map(|rank| item_json(rank, true)).collect();
    let tool_input = snapshot_json(as_of, generated_at, items);

    let content = vec![ContentBlock::ToolUse {
        id: "toolu_1".to_string(),
        name: "emit_snapshot".to_string(),
        input: tool_input.to_string(),
    }];

    let input = response_tool_snapshot(&content).unwrap();
    let parsed = decode_value(&serde_json::from_str::<Value>(&input).unwrap()).unwrap();
    let snapshot = parsed.validate_and_into_snapshot(day(2026, 1, 28)).unwrap();
    assert_eq!(snapshot.as_of_date, day(2026, 1, 28));
    assert_eq!(snapshot.items.len(), 20);
    assert_eq!(snapshot.items[0].rank, 1);
}

#[test]
fn a_snapshot_written_as_json_is_read_back_as_itself() {
    let as_of = NaiveDate::from_ymd_opt(2026, 1, 27).unwrap();
    let mut raw = raw_snapshot(day(2026, 1, 27));
    raw.generated_at = Timestamp { secs: 1_769_508_000, nanos: 123_456_789 };
    raw.items[2].risk_notes = Some(" 변동성 \"높음\" ".to_string());
    raw.items[3].confidence = Some(number(0.0));
    raw.items[4].confidence = Some(number(1.0));
    raw.items[5].confidence = Some(number(0.1 + 0.2));
    raw.items[6].confidence = None;
    let first = raw.validate_and_into_snapshot(day(2026, 1, 27)).unwrap();
    let second = parse_snapshot(&encode(&first), as_of).unwrap();
    assert_eq!(second.as_of_date, first.as_of_date);
    assert_eq!(second.generated_at, first.generated_at);
    assert_eq!(second.items.len(), 20);
    for (a, b) in first.items.iter().zip(second.items.iter()) {
        assert_eq!(a.rank, b.rank);
        assert_eq!(a.ticker, b.ticker);
        assert_eq!(a.name, b.name);
        assert_eq!(a.rationale, b.rationale);
        assert_eq!(a.risk_notes, b.risk_notes);
        assert_eq!(a.confidence, b.confidence);
    }
}

#[test]
fn nineteen_items_are_rejected() {
    let as_of = day(2026, 1, 27);
    let mut raw = raw_snapshot(as_of);
    raw.items.pop();
    assert_eq!(
        raw.validate_and_into_snapshot(as_of).unwrap_err(),
        ValidationError::ItemCount { got: 19 }
    );
}

#[test]
fn twenty_one_items_are_rejected() {
    let as_of = day(2026, 1, 27);
    let mut raw = raw_snapshot(as_of);
    raw.items.push(raw_item(21));
    assert_eq!(
        raw.validate_and_into_snapshot(as_of).unwrap_err(),
        ValidationError::ItemCount { got: 21 }
    );
}

#[test]
fn duplicate_rank_is_rejected() {
    let as_of = day(2026, 1, 27);
    let mut raw = raw_snapshot(as_of);
    raw.items[7].rank = 3;
    assert_eq!(
        raw.validate_and_into_snapshot(as_of).unwrap_err(),
        ValidationError::DuplicateRank { index: 7, rank: 3 }
    );
}

#[test]
fn rank_out_of_range_is_rejected() {
    let as_of = day(2026, 1, 27);
    for bad in [0, 21, -1, i32::MAX, i32::MIN] {
        let mut raw = raw_snapshot(as_of);
        raw.items[4].rank = bad;
        assert_eq!(
            raw.validate_and_into_snapshot(as_of).unwrap_err(),
            ValidationError::RankOutOfRange { index: 4, rank: bad }
        );
    }
}

#[test]
fn confidence_bounds_are_inclusive() {
    let as_of = day(2026, 1, 27);
    for ok in [0.0, 1.0, -0.0, 0.5, f64::MIN_POSITIVE] {
        let mut raw = raw_snapshot(as_of);
        raw.items[0].confidence = Some(number(ok));
        let s = raw.validate_and_into_snapshot(as_of).unwrap();
        assert_eq!(s.items[0].confidence, Some(number(ok)));
    }
}

#[test]
fn confidence_outside_the_unit_interval_is_rejected() {
    let as_of = day(2026, 1, 27);
    for bad in [1.0000001, -0.0000001, 2.0, -1.0, f64::INFINITY, f64::NEG_INFINITY, f64::NAN] {
        let mut raw = raw_snapshot(as_of);
        raw.items[9].confidence = Some(number(bad));
        assert_eq!(
            raw.validate_and_into_snapshot(as_of).unwrap_err(),
            ValidationError::ConfidenceOutOfRange { index: 9, value: number(bad) }
        );
    }
}

#[test]
fn unit_interval_agrees_with_float_comparison() {
    let samples = [
        0.0,
        -0.0,
        1.0,
        0.999_999_999_999_999_9,
        1.000_000_000_000_000_2,
        5e-324,
        -5e-324,
        0.25,
        1e300,
        -1e300,
        f64::NAN,
        f64::INFINITY,
        f64::NEG_INFINITY,
    ];
    for x in samples {
        assert_eq!(number(x).in_unit_interval(), (0.0..=1.0).contains(&x), "{x}");
        assert_eq!(number(x).is_nan(), x.is_nan(), "{x}");
    }
}

#[test]
fn order_key_agrees_with_float_order() {
    let samples = [-1e300, -2.5, -1.0, -5e-324, -0.0, 0.0, 5e-324, 0.5, 1.0, 3.25, 1e300];
    for a in samples {
        for b in samples {
            assert_eq!(number(a).key() < number(b).key(), a < b, "{a} {b}");
            assert_eq!(number(a).key() == number(b).key(), a == b, "{a} {b}");
        }
    }
    assert_eq!(number(f64::NAN).key(), i64::MIN);
    assert!(number(f64::NEG_INFINITY).key() > i64::MIN);
}

#[test]
fn blank_ticker_and_name_are_rejected() {
    let as_of = day(2026, 1, 27);
    let mut raw = raw_snapshot(as_of);
    raw.items[2].ticker = " \t\n".to_string();
    assert_eq!(
        raw.validate_and_into_snapshot(as_of).unwrap_err(),
        ValidationError::EmptyTicker { index: 2 }
    );
    let mut raw = raw_snapshot(as_of);
    raw.items[19].name = String::new();
    assert_eq!(
        raw.validate_and_into_snapshot(as_of).unwrap_err(),
        ValidationError::EmptyName { index: 19 }
    );
}

#[test]
fn rationale_must_have_three_filled_lines() {
    let as_of = day(2026, 1, 27);
    let mut raw = raw_snapshot(as_of);
    raw.items[1].rationale.pop();
    assert_eq!(
        raw.validate_and_into_snapshot(as_of).unwrap_err(),
        ValidationError::RationaleLength { index: 1, got: 2 }
    );
    let mut raw = raw_snapshot(as_of);
    raw.items[1].rationale.push("d".to_string());
    assert_eq!(
        raw.validate_and_into_snapshot(as_of).unwrap_err(),
        ValidationError::RationaleLength { index: 1, got: 4 }
    );
    let mut raw = raw_snapshot(as_of);
    raw.items[1].rationale[2] = "   ".to_string();
    assert_eq!(
        raw.validate_and_into_snapshot(as_of).unwrap_err(),
        ValidationError::EmptyRationaleLine { index: 1 }
    );
}

#[test]
fn first_broken_rule_wins() {
    let as_of = day(2026, 1, 27);
    let mut raw = raw_snapshot(as_of);
    raw.items[5].name = String::new();
    raw.items[5].confidence = Some(number(7.0));
    raw.items[3].rationale.clear();
    raw.items[8].rank = 99;
    assert_eq!(
        raw.validate_and_into_snapshot(as_of).unwrap_err(),
        ValidationError::RationaleLength { index: 3, got: 0 }
    );
}

#[test]
fn texts_are_trimmed_and_empty_risk_note_is_dropped() {
    let as_of = day(2026, 1, 27);
    let mut raw = raw_snapshot(as_of);
    raw.items[0].ticker = "  KRX:005930\n".to_string();
    raw.items[0].name = "\u{3000}삼성전자 ".to_string();
    raw.items[0].rationale = vec![" x ".to_string(), "y\t".to_string(), "\nz".to_string()];
    raw.items[0].risk_notes = Some("   ".to_string());
    raw.items[1].risk_notes = Some("  volatile ".to_string());
    let s = raw.validate_and_into_snapshot(as_of).unwrap();
    assert_eq!(s.items[0].ticker, "KRX:005930");
    assert_eq!(s.items[0].name, "삼성전자");
    assert_eq!(s.items[0].rationale, ["x".to_string(), "y".to_string(), "z".to_string()]);
    assert_eq!(s.items[0].risk_notes, None);
    assert_eq!(s.items[1].risk_notes, Some("volatile".to_string()));
}

#[test]
fn ranks_of_a_validated_snapshot_are_one_to_twenty() {
    let as_of = day(2026, 1, 27);
    let mut raw = raw_snapshot(as_of);
    raw.items.reverse();
    raw.items.swap(3, 11);
    let s = raw.validate_and_into_snapshot(as_of).unwrap();
    let mut ranks: Vec<i32> = s.items.iter().map(|i| i.rank).collect();
    assert_eq!(ranks[0], 20);
    ranks.sort();
    assert_eq!(ranks, (1..=20).collect::<Vec<i32>>());
}

#[test]
fn revalidating_a_snapshot_gives_it_back() {
    let as_of = day(2026, 1, 27);
    let mut raw = raw_snapshot(as_of);
    raw.items[4].risk_notes = Some(" thin float ".to_string());
    raw.items[6].confidence = Some(number(1.0));
    raw.items[7].confidence = None;
    raw.items[8].name = " padded ".to_string();
    let first = raw.validate_and_into_snapshot(as_of).unwrap();
    let second = as_raw(&first).validate_and_into_snapshot(as_of).unwrap();
    assert_eq!(second.as_of_date, first.as_of_date);
    assert_eq!(second.generated_at, first.generated_at);
    assert_eq!(second.items.len(), first.items.len());
    for (a, b) in first.items.iter().zip(second.items.iter()) {
        assert_eq!(a.rank, b.rank);
        assert_eq!(a.ticker, b.ticker);
        assert_eq!(a.name, b.name);
        assert_eq!(a.rationale, b.rationale);
        assert_eq!(a.risk_notes, b.risk_notes);
        assert_eq!(a.confidence, b.confidence);
    }
}
