//! Parsing of expiration durations as users type them: a run of digits
//! followed by a day or hour unit, anywhere in the input ("30d", "24h",
//! "keep 7d"). The first such run decides; a missing run means no expiration
//! policy, and a value too large for the result type is a parse failure
//! rather than an overflow.
use vstd::prelude::*;

verus! {

/// The ASCII decimal digits.
pub open spec fn is_digit_char(c: char) -> bool {
    48 <= c as int && c as int <= 57
}

/// The accepted unit letters: days and hours, either case.
pub open spec fn is_unit_char(c: char) -> bool {
    c == 'd' || c == 'D' || c == 'h' || c == 'H'
}

/// Seconds per unit: a day or an hour.
pub open spec fn unit_multiplier(c: char) -> int {
    if c == 'd' || c == 'D' {
        86400
    } else {
        3600
    }
}

/// The numeric value of one digit character.
pub open spec fn digit_val(c: char) -> int {
    c as int - 48
}

/// The number written by a sequence of digit characters, most significant
/// first.
pub open spec fn digits_value(ds: Seq<char>) -> int
    decreases ds.len(),
{
    if ds.len() == 0 {
        0
    } else {
        digits_value(ds.drop_last()) * 10 + digit_val(ds.last())
    }
}

/// Position `u` ends a duration: it holds a unit letter directly preceded by
/// a digit.
pub open spec fn is_match_end(s: Seq<char>, u: int) -> bool {
    0 <= u < s.len() && is_unit_char(s[u]) && u >= 1 && is_digit_char(s[u - 1])
}

/// The first position at or past `i` that ends a duration, if any.
pub open spec fn match_end_from(s: Seq<char>, i: int) -> Option<int>
    decreases s.len() - i,
    when 0 <= i <= s.len()
{
    if i >= s.len() {
        None
    } else if is_match_end(s, i) {
        Some(i)
    } else {
        match_end_from(s, i + 1)
    }
}

/// The start of the maximal digit run ending just before `u`.
pub open spec fn run_start(s: Seq<char>, u: int) -> int
    decreases u,
    when 0 <= u <= s.len()
{
    if u >= 1 && is_digit_char(s[u - 1]) {
        run_start(s, u - 1)
    } else {
        u
    }
}

/// What a duration string means: the first digit run followed by a unit
/// letter gives `digits * seconds-per-unit`; no such run means no duration;
/// a product beyond the result type's range is a parse failure.
pub open spec fn parse_duration_spec(s: Seq<char>) -> Option<i32> {
    match match_end_from(s, 0) {
        None => None,
        Some(u) => {
            let st = run_start(s, u);
            let total = digits_value(s.subrange(st, u)) * unit_multiplier(s[u]);
            if total <= i32::MAX as int {
                Some(total as i32)
            } else {
                None
            }
        },
    }
}

/// A sequence of digit characters writes a nonnegative number.
proof fn lemma_digits_value_nonneg(ds: Seq<char>)
    requires
        forall|k: int| 0 <= k < ds.len() ==> is_digit_char(ds[k]),
    ensures
        digits_value(ds) >= 0,
    decreases ds.len(),
{
    if ds.len() > 0 {
        lemma_digits_value_nonneg(ds.drop_last());
    }
}

/// Scanning past positions that end no duration does not change the first
/// duration end found.
proof fn lemma_match_end_skip(s: Seq<char>, i: int, u: int)
    requires
        0 <= i <= u <= s.len(),
        forall|k: int| i <= k < u ==> !is_match_end(s, k),
    ensures
        match_end_from(s, i) == match_end_from(s, u),
    decreases u - i,
{
    if i < u {
        lemma_match_end_skip(s, i + 1, u);
    }
}

/// A maximal digit run pins down `run_start`: if everything in `[lo, u)` is
/// a digit and `lo` is not preceded by one, the run ending before `u` starts
/// at `lo`.
proof fn lemma_run_start(s: Seq<char>, lo: int, u: int)
    requires
        0 <= lo <= u <= s.len(),
        forall|k: int| lo <= k < u ==> is_digit_char(s[k]),
        lo == 0 || !is_digit_char(s[lo - 1]),
    ensures
        run_start(s, u) == lo,
    decreases u - lo,
{
    if u > lo {
        lemma_run_start(s, lo, u - 1);
    }
}

/// Parses the first duration written in `s`, if any: a digit run directly
/// followed by `d`/`D` (days) or `h`/`H` (hours) yields that many seconds.
/// Returns `None` when no such run occurs or the value does not fit.
#[verifier::loop_isolation(false)]
pub fn parse_duration(s: &str) -> (r: Option<i32>)
    ensures
        r == parse_duration_spec(s@),
{
    let len = s.unicode_len();
    let mut i: usize = 0;
    let mut acc: i64 = 0;
    let mut run_len: usize = 0;
    let mut too_big: bool = false;
    while i < len
        invariant
            len == s@.len(),
            i <= len,
            run_len <= i,
            forall|k: int| i - run_len <= k < i ==> is_digit_char(s@[k]),
            i - run_len == 0 || !is_digit_char(s@[i - run_len - 1]),
            forall|u: int| 0 <= u < i ==> !is_match_end(s@, u),
            !too_big ==> 0 <= acc <= i32::MAX && acc as int == digits_value(
                s@.subrange(i - run_len, i as int),
            ),
            too_big ==> run_len >= 1 && digits_value(s@.subrange(i - run_len, i as int))
                > i32::MAX,
        decreases len - i,
    {
        let c = s.get_char(i);
        let cu = c as u32;
        if cu >= 48 && cu <= 57 {
            proof {
                let start = i - run_len;
                assert(s@.subrange(start, i + 1).drop_last() =~= s@.subrange(start, i as int));
                assert(s@.subrange(start, i + 1).last() == s@[i as int]);
                assert(digits_value(s@.subrange(start, i + 1)) == digits_value(
                    s@.subrange(start, i as int),
                ) * 10 + digit_val(s@[i as int]));
            }
            if !too_big {
                let d: i64 = (cu - 48) as i64;
                let next: i64 = acc * 10 + d;
                if next > 2147483647 {
                    too_big = true;
                    acc = 0;
                } else {
                    acc = next;
                }
            }
            run_len = run_len + 1;
        } else if (c == 'd' || c == 'D' || c == 'h' || c == 'H') && run_len >= 1 {
            proof {
                assert(is_match_end(s@, i as int));
                lemma_match_end_skip(s@, 0, i as int);
                assert(match_end_from(s@, 0) == Some(i as int));
                lemma_run_start(s@, i - run_len, i as int);
                lemma_digits_value_nonneg(s@.subrange(i - run_len, i as int));
            }
            if too_big {
                proof {
                    let n = digits_value(s@.subrange(i - run_len, i as int));
                    assert(n > i32::MAX);
                    assert(unit_multiplier(s@[i as int]) == 86400 || unit_multiplier(
                        s@[i as int],
                    ) == 3600);
                    assert(n * 86400 >= n) by (nonlinear_arith)
                        requires
                            n >= 0,
                    ;
                    assert(n * 3600 >= n) by (nonlinear_arith)
                        requires
                            n >= 0,
                    ;
                }
                return None;
            }
            let total: i64 = if c == 'd' || c == 'D' {
                acc * 86400
            } else {
                acc * 3600
            };
            if total <= 2147483647 {
                return Some(total as i32);
            } else {
                return None;
            }
        } else {
            proof {
                assert(!is_match_end(s@, i as int));
            }
            acc = 0;
            run_len = 0;
            too_big = false;
        }
        i = i + 1;
    }
    proof {
        lemma_match_end_skip(s@, 0, len as int);
    }
    None
}

} // verus!
