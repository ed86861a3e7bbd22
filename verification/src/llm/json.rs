//! Finding the JSON payload inside a model's free-text reply.

use crate::text::{
    chars_of, find_char, first_index, last_index, last_occurrence, occurs_at, rfind_char,
    rfind_seq, starts_with, trim, trim_bounds, trimmed,
};
use vstd::prelude::*;
use vstd::string::StringExecFns;

verus! {

/// The Markdown fence, three backticks.
pub open spec fn fence() -> Seq<char> {
    seq!['`', '`', '`']
}

/// What follows the opening fence of `t`, a text that begins with one: what follows
/// the first line, which holds the fence and may name a language, or, where the text
/// is one line, what follows the fence itself.
pub open spec fn after_opening_fence(t: Seq<char>) -> Seq<char> {
    match first_index(t, '\n') {
        Some(i) => t.skip(i + 1),
        None => t.skip(fence().len() as int),
    }
}

/// What precedes the last fence in `t`, or `t` itself where it has none.
pub open spec fn before_last_fence(t: Seq<char>) -> Seq<char> {
    match last_occurrence(t, fence()) {
        Some(e) => t.take(e),
        None => t,
    }
}

/// The payload of a reply. A reply that, trimmed, begins with a fence gives what stands
/// between its opening fence and its last fence, both left out; any other gives what
/// stands from its first `{` to its last `}`, if the two come in that order. The
/// payload is trimmed.
pub open spec fn extract_json_spec(text: Seq<char>) -> Option<Seq<char>> {
    let t = trimmed(text);
    if occurs_at(t, fence(), 0) {
        Some(trimmed(before_last_fence(after_opening_fence(t))))
    } else {
        match (first_index(t, '{'), last_index(t, '}')) {
            (Some(a), Some(b)) => if b <= a {
                None
            } else {
                Some(trimmed(t.subrange(a, b + 1)))
            },
            _ => None,
        }
    }
}

/// The JSON payload of a model's reply, freed of Markdown fences or of the prose around
/// its outermost braces.
pub fn extract_json(text: &str) -> (r: Option<String>)
    ensures
        match r {
            Some(s) => extract_json_spec(text@) == Some(s@),
            None => extract_json_spec(text@) is None,
        },
{
    let v = chars_of(text);
    let (a, b) = trim_bounds(&v, 0, v.len());
    let ghost t = v@.subrange(a as int, b as int);
    assert(v@.subrange(0, v.len() as int) =~= v@);
    let ticks: Vec<char> = vec!['`', '`', '`'];
    assert(ticks@ =~= fence());
    if starts_with(&v, a, b, &ticks) {
        let lo = match find_char(&v, a, b, '\n') {
            Some(i) => i + 1,
            None => a + 3,
        };
        let ghost inner = v@.subrange(lo as int, b as int);
        assert(inner =~= after_opening_fence(t));
        let hi = match rfind_seq(&v, lo, b, &ticks) {
            Some(e) => e,
            None => b,
        };
        assert(v@.subrange(lo as int, hi as int) =~= before_last_fence(inner));
        let (x, y) = trim_bounds(&v, lo, hi);
        return Some(String::from_str(text.substring_char(x, y)));
    }
    let start = match find_char(&v, a, b, '{') {
        Some(i) => i,
        None => {
            return None;
        },
    };
    let end = match rfind_char(&v, a, b, '}') {
        Some(i) => i,
        None => {
            return None;
        },
    };
    if end <= start {
        return None;
    }
    assert(v@.subrange(start as int, end + 1) =~= t.subrange(start - a, end - a + 1));
    let (x, y) = trim_bounds(&v, start, end + 1);
    Some(String::from_str(text.substring_char(x, y)))
}

/// The JSON text inside a free text: what [`extract_json_spec`] finds, or else the
/// whole text, trimmed.
pub open spec fn text_payload(text: Seq<char>) -> Seq<char> {
    match extract_json_spec(text) {
        Some(json) => json,
        None => trimmed(text),
    }
}

/// The JSON text to decode from a model's free-text reply.
pub fn json_payload(text: &str) -> (r: String)
    ensures
        r@ == text_payload(text@),
{
    match extract_json(text) {
        Some(json) => json,
        None => trim(text),
    }
}

} // verus!
