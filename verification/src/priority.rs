//! Note priority ranking, used to order note listings: a named level or a
//! bare number, anything else sorting last.

use vstd::prelude::*;

use crate::render::chars_of;
use crate::render::digit_value;
use crate::render::str_eq;
use crate::render::{spec_all_digits, spec_digit_val, spec_digits_val, spec_is_digit};

verus! {

/// The Unicode lowercase mapping of a text, as `str::to_lowercase` computes
/// it. The result depends on the characters alone.
pub uninterp spec fn lower_of(s: Seq<char>) -> Seq<char>;

/// Relies on `str::to_lowercase` for Unicode case folding.
#[verifier::external_body]
fn lowercase(s: &str) -> (r: String)
    ensures
        r@ == lower_of(s@),
{
    s.to_lowercase()
}

/// What `str::parse::<i32>` accepts: an optional sign followed by one or
/// more digits, denoting a value in `i32` range.
pub open spec fn spec_parse_i32(s: Seq<char>) -> Option<int> {
    let signed = s.len() > 0 && (s[0] == '-' || s[0] == '+');
    let body = if signed {
        s.skip(1)
    } else {
        s
    };
    let neg = s.len() > 0 && s[0] == '-';
    if body.len() == 0 || !spec_all_digits(body) {
        None
    } else {
        let v = if neg {
            -spec_digits_val(body)
        } else {
            spec_digits_val(body)
        };
        if -2147483648 <= v <= 2147483647 {
            Some(v)
        } else {
            None
        }
    }
}

proof fn lemma_digits_val_nonneg(s: Seq<char>)
    requires
        spec_all_digits(s),
    ensures
        spec_digits_val(s) >= 0,
    decreases s.len(),
{
    if s.len() > 0 {
        assert(spec_all_digits(s.take(s.len() - 1)));
        lemma_digits_val_nonneg(s.take(s.len() - 1));
    }
}

/// Parses a decimal integer as `str::parse::<i32>` does: an optional sign,
/// then digits; anything else, or a value out of range, is rejected.
pub fn parse_i32(s: &str) -> (r: Option<i32>)
    ensures
        (match r {
            Some(v) => spec_parse_i32(s@) == Some(v as int),
            None => spec_parse_i32(s@) is None,
        }),
{
    let chars = chars_of(s);
    let n = chars.len();
    if n == 0 {
        return None;
    }
    let c0 = chars[0];
    let neg = c0 == '-';
    let start: usize = if c0 == '-' || c0 == '+' {
        1
    } else {
        0
    };
    let ghost body = if start == 1 {
        s@.skip(1)
    } else {
        s@
    };
    if start >= n {
        return None;
    }
    let mut acc: u64 = 0;
    let mut over = false;
    let mut i: usize = start;
    proof {
        assert(body.take(0) =~= Seq::<char>::empty());
    }
    while i < n
        invariant
            start <= i <= n,
            n == s@.len(),
            n > 0,
            chars@ == s@,
            start == 0 || start == 1,
            (start == 1) == (s@[0] == '-' || s@[0] == '+'),
            neg == (s@[0] == '-'),
            body == (if start == 1 {
                s@.skip(1)
            } else {
                s@
            }),
            body.len() == n - start,
            forall|k: int| 0 <= k < i - start ==> spec_is_digit(#[trigger] body[k]),
            !over ==> acc == spec_digits_val(body.take(i - start)) && acc <= 2147483648,
            over ==> spec_digits_val(body.take(i - start)) > 2147483648,
        decreases n - i,
    {
        let c = chars[i];
        proof {
            assert(body[i - start] == s@[i as int]);
        }
        let d: u64 = match digit_value(c) {
            Some(v) => v as u64,
            None => {
                proof {
                    assert(!spec_is_digit(body[i - start]));
                }
                return None;
            },
        };
        let ghost prev = body.take(i - start);
        let ghost cur = body.take(i + 1 - start);
        proof {
            assert(c == body[i - start]);
            assert(spec_is_digit(c));
            assert(d as int == spec_digit_val(c));
            assert(cur.take(cur.len() - 1) =~= prev);
            assert(cur[cur.len() - 1] == body[i - start]);
            assert(spec_digits_val(cur) == spec_digits_val(prev) * 10 + spec_digit_val(
                body[i - start],
            ));
            assert(spec_all_digits(prev));
            lemma_digits_val_nonneg(prev);
        }
        if !over {
            acc = acc * 10 + d;
            if acc > 2147483648 {
                over = true;
            }
        }
        i += 1;
    }
    proof {
        assert(body.take(i - start) =~= body);
        assert(spec_all_digits(body));
    }
    if over {
        return None;
    }
    if neg {
        let v: i64 = -(acc as i64);
        Some(v as i32)
    } else {
        if acc > 2147483647 {
            return None;
        }
        Some(acc as i32)
    }
}

/// The rank a lowercased priority keyword denotes, if any: urgent levels
/// first, minor levels last.
pub open spec fn spec_rank_keyword(low: Seq<char>) -> Option<int> {
    if low == "high"@ || low == "1"@ || low == "urgent"@ || low == "\u{9ad8}"@ || low
        == "\u{7d27}\u{6025}"@ {
        Some(1)
    } else if low == "medium"@ || low == "2"@ || low == "normal"@ || low == "\u{4e2d}"@ || low
        == "\u{666e}\u{901a}"@ {
        Some(2)
    } else if low == "low"@ || low == "3"@ || low == "minor"@ || low == "\u{4f4e}"@ || low
        == "\u{6b21}\u{8981}"@ {
        Some(3)
    } else {
        None
    }
}

/// The rank of a priority text: a recognized keyword (compared after case
/// folding), else the number it spells, else 999.
pub open spec fn spec_rank(low: Seq<char>, orig: Seq<char>) -> int {
    match spec_rank_keyword(low) {
        Some(v) => v,
        None => match spec_parse_i32(orig) {
            Some(v) => v,
            None => 999,
        },
    }
}

/// Ranks a note's optional priority text for sorting: smaller ranks sort
/// first, and notes without a recognizable priority sort last.
pub fn parse_priority(priority: &Option<String>) -> (r: i32)
    ensures
        (match priority {
            None => r == 999,
            Some(p) => r as int == spec_rank(lower_of(p@), p@),
        }),
{
    match priority {
        None => 999,
        Some(p) => {
            let low = lowercase(p.as_str());
            let ls = low.as_str();
            if str_eq(ls, "high") || str_eq(ls, "1") || str_eq(ls, "urgent") || str_eq(
                ls,
                "\u{9ad8}",
            ) || str_eq(ls, "\u{7d27}\u{6025}") {
                1
            } else if str_eq(ls, "medium") || str_eq(ls, "2") || str_eq(ls, "normal") || str_eq(
                ls,
                "\u{4e2d}",
            ) || str_eq(ls, "\u{666e}\u{901a}") {
                2
            } else if str_eq(ls, "low") || str_eq(ls, "3") || str_eq(ls, "minor") || str_eq(
                ls,
                "\u{4f4e}",
            ) || str_eq(ls, "\u{6b21}\u{8981}") {
                3
            } else {
                match parse_i32(p.as_str()) {
                    Some(v) => v,
                    None => 999,
                }
            }
        },
    }
}

} // verus!
