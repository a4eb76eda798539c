//! Recovery from "context overflow" replies: recognising the provider's error,
//! shrinking `max_tokens` so the request fits, and deciding when to give up.

use vstd::prelude::*;
use crate::text::{chars_of, concat_str, decimal, matches_at, occurs_at, u64_to_string};

verus! {

/// Smallest output budget worth retrying with.
pub const MIN_OUTPUT_TOKENS: u64 = 3000;

/// Head room kept free below the context limit.
pub const RESERVE_BUFFER: u64 = 1000;

/// The numbers carried by a context-overflow error.
#[derive(Debug, Clone, Copy, PartialEq, Eq, Structural)]
pub struct ContextOverflowError {
    pub input_tokens: u64,
    pub max_tokens: u64,
    pub context_limit: u64,
}

/// Why an overflow could not be recovered from.
#[derive(Debug, Clone, PartialEq, Eq)]
pub enum OverflowRecoveryError {
    NotOverflowError,
    CannotRecover { input_tokens: u64, context_limit: u64 },
    MaxRetriesExceeded { attempts: u32 },
    RequestFailed(String),
}

/// Options for retrying a request after overflows.
#[derive(Debug, Clone, Copy, PartialEq, Eq, Structural)]
pub struct OverflowRecoveryOptions {
    pub max_tokens: Option<u64>,
    pub max_thinking_tokens: u64,
    pub max_retries: u32,
}

impl Default for OverflowRecoveryOptions {
    fn default() -> (r: Self)
        ensures
            r.max_tokens is None,
            r.max_thinking_tokens == 0,
            r.max_retries == 3,
    {
        OverflowRecoveryOptions { max_tokens: None, max_thinking_tokens: 0, max_retries: 3 }
    }
}

/// A failed request: HTTP status and error text.
#[derive(Debug, Clone)]
pub struct RequestError {
    pub status: u16,
    pub message: String,
}

/// The text that introduces the three numbers of an overflow error.
pub open spec fn overflow_prefix() -> Seq<char> {
    "input length and `max_tokens` exceed context limit: "@
}

pub open spec fn is_digit(c: char) -> bool {
    '0' <= c && c <= '9'
}

/// A decimal digit of any script, as the regex crate's `\d` reads one (the
/// Unicode `Decimal_Number` category, Unicode 16.0).
pub open spec fn is_decimal(c: char) -> bool {
    let n = c as u32;
    ||| 0x30 <= n <= 0x39
    ||| 0x660 <= n <= 0x669
    ||| 0x6F0 <= n <= 0x6F9
    ||| 0x7C0 <= n <= 0x7C9
    ||| 0x966 <= n <= 0x96F
    ||| 0x9E6 <= n <= 0x9EF
    ||| 0xA66 <= n <= 0xA6F
    ||| 0xAE6 <= n <= 0xAEF
    ||| 0xB66 <= n <= 0xB6F
    ||| 0xBE6 <= n <= 0xBEF
    ||| 0xC66 <= n <= 0xC6F
    ||| 0xCE6 <= n <= 0xCEF
    ||| 0xD66 <= n <= 0xD6F
    ||| 0xDE6 <= n <= 0xDEF
    ||| 0xE50 <= n <= 0xE59
    ||| 0xED0 <= n <= 0xED9
    ||| 0xF20 <= n <= 0xF29
    ||| 0x1040 <= n <= 0x1049
    ||| 0x1090 <= n <= 0x1099
    ||| 0x17E0 <= n <= 0x17E9
    ||| 0x1810 <= n <= 0x1819
    ||| 0x1946 <= n <= 0x194F
    ||| 0x19D0 <= n <= 0x19D9
    ||| 0x1A80 <= n <= 0x1A89
    ||| 0x1A90 <= n <= 0x1A99
    ||| 0x1B50 <= n <= 0x1B59
    ||| 0x1BB0 <= n <= 0x1BB9
    ||| 0x1C40 <= n <= 0x1C49
    ||| 0x1C50 <= n <= 0x1C59
    ||| 0xA620 <= n <= 0xA629
    ||| 0xA8D0 <= n <= 0xA8D9
    ||| 0xA900 <= n <= 0xA909
    ||| 0xA9D0 <= n <= 0xA9D9
    ||| 0xA9F0 <= n <= 0xA9F9
    ||| 0xAA50 <= n <= 0xAA59
    ||| 0xABF0 <= n <= 0xABF9
    ||| 0xFF10 <= n <= 0xFF19
    ||| 0x104A0 <= n <= 0x104A9
    ||| 0x10D30 <= n <= 0x10D39
    ||| 0x10D40 <= n <= 0x10D49
    ||| 0x11066 <= n <= 0x1106F
    ||| 0x110F0 <= n <= 0x110F9
    ||| 0x11136 <= n <= 0x1113F
    ||| 0x111D0 <= n <= 0x111D9
    ||| 0x112F0 <= n <= 0x112F9
    ||| 0x11450 <= n <= 0x11459
    ||| 0x114D0 <= n <= 0x114D9
    ||| 0x11650 <= n <= 0x11659
    ||| 0x116C0 <= n <= 0x116C9
    ||| 0x116D0 <= n <= 0x116E3
    ||| 0x11730 <= n <= 0x11739
    ||| 0x118E0 <= n <= 0x118E9
    ||| 0x11950 <= n <= 0x11959
    ||| 0x11BF0 <= n <= 0x11BF9
    ||| 0x11C50 <= n <= 0x11C59
    ||| 0x11D50 <= n <= 0x11D59
    ||| 0x11DA0 <= n <= 0x11DA9
    ||| 0x11F50 <= n <= 0x11F59
    ||| 0x16130 <= n <= 0x16139
    ||| 0x16A60 <= n <= 0x16A69
    ||| 0x16AC0 <= n <= 0x16AC9
    ||| 0x16B50 <= n <= 0x16B59
    ||| 0x16D70 <= n <= 0x16D79
    ||| 0x1CCF0 <= n <= 0x1CCF9
    ||| 0x1D7CE <= n <= 0x1D7FF
    ||| 0x1E140 <= n <= 0x1E149
    ||| 0x1E2F0 <= n <= 0x1E2F9
    ||| 0x1E4F0 <= n <= 0x1E4F9
    ||| 0x1E5F1 <= n <= 0x1E5FA
    ||| 0x1E950 <= n <= 0x1E959
    ||| 0x1FBF0 <= n <= 0x1FBF9
}

/// Whether `c` is a decimal digit of any script (see `is_decimal`).
fn is_decimal_char(c: char) -> (r: bool)
    ensures
        r == is_decimal(c),
{
    let n = c as u32;
    (0x30 <= n && n <= 0x39) || (0x660 <= n && n <= 0x669) || (0x6F0 <= n && n <= 0x6F9) || (0x7C0 <= n && n <= 0x7C9) || (0x966 <= n && n <= 0x96F) || (0x9E6 <= n && n <= 0x9EF) || (0xA66 <= n && n <= 0xA6F) || (0xAE6 <= n && n <= 0xAEF) || (0xB66 <= n && n <= 0xB6F) || (0xBE6 <= n && n <= 0xBEF) || (0xC66 <= n && n <= 0xC6F) || (0xCE6 <= n && n <= 0xCEF) || (0xD66 <= n && n <= 0xD6F) || (0xDE6 <= n && n <= 0xDEF) || (0xE50 <= n && n <= 0xE59) || (0xED0 <= n && n <= 0xED9) || (0xF20 <= n && n <= 0xF29) || (0x1040 <= n && n <= 0x1049) || (0x1090 <= n && n <= 0x1099) || (0x17E0 <= n && n <= 0x17E9) || (0x1810 <= n && n <= 0x1819) || (0x1946 <= n && n <= 0x194F) || (0x19D0 <= n && n <= 0x19D9) || (0x1A80 <= n && n <= 0x1A89) || (0x1A90 <= n && n <= 0x1A99) || (0x1B50 <= n && n <= 0x1B59) || (0x1BB0 <= n && n <= 0x1BB9) || (0x1C40 <= n && n <= 0x1C49) || (0x1C50 <= n && n <= 0x1C59) || (0xA620 <= n && n <= 0xA629) || (0xA8D0 <= n && n <= 0xA8D9) || (0xA900 <= n && n <= 0xA909) || (0xA9D0 <= n && n <= 0xA9D9) || (0xA9F0 <= n && n <= 0xA9F9) || (0xAA50 <= n && n <= 0xAA59) || (0xABF0 <= n && n <= 0xABF9) || (0xFF10 <= n && n <= 0xFF19) || (0x104A0 <= n && n <= 0x104A9) || (0x10D30 <= n && n <= 0x10D39) || (0x10D40 <= n && n <= 0x10D49) || (0x11066 <= n && n <= 0x1106F) || (0x110F0 <= n && n <= 0x110F9) || (0x11136 <= n && n <= 0x1113F) || (0x111D0 <= n && n <= 0x111D9) || (0x112F0 <= n && n <= 0x112F9) || (0x11450 <= n && n <= 0x11459) || (0x114D0 <= n && n <= 0x114D9) || (0x11650 <= n && n <= 0x11659) || (0x116C0 <= n && n <= 0x116C9) || (0x116D0 <= n && n <= 0x116E3) || (0x11730 <= n && n <= 0x11739) || (0x118E0 <= n && n <= 0x118E9) || (0x11950 <= n && n <= 0x11959) || (0x11BF0 <= n && n <= 0x11BF9) || (0x11C50 <= n && n <= 0x11C59) || (0x11D50 <= n && n <= 0x11D59) || (0x11DA0 <= n && n <= 0x11DA9) || (0x11F50 <= n && n <= 0x11F59) || (0x16130 <= n && n <= 0x16139) || (0x16A60 <= n && n <= 0x16A69) || (0x16AC0 <= n && n <= 0x16AC9) || (0x16B50 <= n && n <= 0x16B59) || (0x16D70 <= n && n <= 0x16D79) || (0x1CCF0 <= n && n <= 0x1CCF9) || (0x1D7CE <= n && n <= 0x1D7FF) || (0x1E140 <= n && n <= 0x1E149) || (0x1E2F0 <= n && n <= 0x1E2F9) || (0x1E4F0 <= n && n <= 0x1E4F9) || (0x1E5F1 <= n && n <= 0x1E5FA) || (0x1E950 <= n && n <= 0x1E959) || (0x1FBF0 <= n && n <= 0x1FBF9)
}

/// Every character is an ASCII digit.
pub open spec fn ascii_digits(s: Seq<char>) -> bool {
    forall|k: int| 0 <= k < s.len() ==> is_digit(#[trigger] s[k])
}

/// First index at or after `j` that is not a decimal digit (or `s.len()`).
pub open spec fn digits_end(s: Seq<char>, j: int) -> int
    decreases s.len() - j,
{
    if j < 0 || j >= s.len() || !is_decimal(s[j]) {
        j
    } else {
        digits_end(s, j + 1)
    }
}

/// The number written by a string of decimal digits.
pub open spec fn digits_value(d: Seq<char>) -> nat
    decreases d.len(),
{
    if d.len() == 0 {
        0
    } else {
        digits_value(d.drop_last()) * 10 + ((d.last() as u32) - ('0' as u32)) as nat
    }
}

/// Spans of the three numbers when the overflow pattern
/// `<prefix><digits> + <digits> > <digits>` starts at `i`.
pub open spec fn spans_at(s: Seq<char>, i: int) -> Option<(int, int, int, int, int, int)> {
    let a = i + overflow_prefix().len();
    let ae = digits_end(s, a);
    let b = ae + 3;
    let be = digits_end(s, b);
    let c = be + 3;
    let ce = digits_end(s, c);
    if occurs_at(s, overflow_prefix(), i) && ae > a && occurs_at(s, " + "@, ae) && be > b
        && occurs_at(s, " > "@, be) && ce > c {
        Some((a, ae, b, be, c, ce))
    } else {
        None
    }
}

/// The leftmost occurrence of the overflow pattern at or after `i`.
pub open spec fn first_spans_from(s: Seq<char>, i: int) -> Option<(int, int, int, int, int, int)>
    decreases s.len() + 1 - i,
{
    if i < 0 || i > s.len() {
        None
    } else {
        match spans_at(s, i) {
            Some(p) => Some(p),
            None => first_spans_from(s, i + 1),
        }
    }
}

/// The overflow numbers carried by a reply, when it is a 400 whose message holds
/// the pattern and all three numbers fit in `u64`.
pub open spec fn parsed_overflow(status: u16, msg: Seq<char>) -> Option<(nat, nat, nat)> {
    if status != 400 {
        None
    } else {
        match first_spans_from(msg, 0) {
            None => None,
            Some((a, ae, b, be, c, ce)) => {
                let x = digits_value(msg.subrange(a, ae));
                let y = digits_value(msg.subrange(b, be));
                let z = digits_value(msg.subrange(c, ce));
                if ascii_digits(msg.subrange(a, ae)) && ascii_digits(msg.subrange(b, be)) && ascii_digits(
                    msg.subrange(c, ce),
                ) && x <= u64::MAX && y <= u64::MAX && z <= u64::MAX {
                    Some((x, y, z))
                } else {
                    None
                }
            },
        }
    }
}

/// `a - b`, or 0 when `b > a`.
pub open spec fn sat_sub(a: int, b: int) -> int {
    if a >= b {
        a - b
    } else {
        0
    }
}

/// Output tokens left once the input and the reserve are taken from the limit.
pub open spec fn available_tokens(input: int, limit: int) -> int {
    sat_sub(sat_sub(limit, input), RESERVE_BUFFER as int)
}

pub open spec fn max_int(a: int, b: int) -> int {
    if a >= b {
        a
    } else {
        b
    }
}

/// The output budget to retry with, or `None` when not even the minimum fits.
pub open spec fn adjusted_tokens(input: int, limit: int, thinking: int) -> Option<int> {
    let available = available_tokens(input, limit);
    if available < MIN_OUTPUT_TOKENS {
        None
    } else {
        Some(max_int(max_int(available, MIN_OUTPUT_TOKENS as int), thinking + 1))
    }
}

/// `calculate_adjusted_max_tokens` does not overflow on these inputs.
pub open spec fn adjustable(input: int, limit: int, thinking: int) -> bool {
    available_tokens(input, limit) < MIN_OUTPUT_TOKENS || thinking < u64::MAX
}

proof fn lemma_digits_end(s: Seq<char>, j: int)
    requires
        0 <= j <= s.len(),
    ensures
        j <= digits_end(s, j) <= s.len(),
        forall|k: int| j <= k < digits_end(s, j) ==> is_decimal(#[trigger] s[k]),
    decreases s.len() - j,
{
    if j < s.len() && is_decimal(s[j]) {
        lemma_digits_end(s, j + 1);
    }
}

proof fn lemma_digits_monotone(s: Seq<char>, a: int, k: int, e: int)
    requires
        0 <= a <= k <= e <= s.len(),
        forall|m: int| a <= m < e ==> is_digit(#[trigger] s[m]),
    ensures
        digits_value(s.subrange(a, k)) <= digits_value(s.subrange(a, e)),
    decreases e - k,
{
    if k < e {
        lemma_digits_monotone(s, a, k, e - 1);
        assert(s.subrange(a, e).drop_last() =~= s.subrange(a, e - 1));
    }
}

fn find_digits_end(s: &[char], j: usize) -> (e: usize)
    requires
        j <= s@.len(),
    ensures
        e as int == digits_end(s@, j as int),
        j <= e <= s@.len(),
{
    let mut e = j;
    while e < s.len() && is_decimal_char(s[e])
        invariant
            j <= e <= s@.len(),
            digits_end(s@, e as int) == digits_end(s@, j as int),
        decreases s@.len() - e,
    {
        e = e + 1;
    }
    e
}

/// The value of the digits `s[a..e]`, as `u64::from_str` reads them: `None`
/// when one of them is not an ASCII digit or the value does not fit in `u64`.
fn parse_digits(s: &[char], a: usize, e: usize) -> (r: Option<u64>)
    requires
        a <= e <= s@.len(),
    ensures
        match r {
            Some(v) => ascii_digits(s@.subrange(a as int, e as int)) && v as nat == digits_value(s@.subrange(a as int, e as int)),
            None => !ascii_digits(s@.subrange(a as int, e as int)) || digits_value(s@.subrange(a as int, e as int)) > u64::MAX,
        },
{
    let mut q = a;
    while q < e
        invariant
            a <= q <= e <= s@.len(),
            forall|m: int| a <= m < q ==> is_digit(#[trigger] s@[m]),
        decreases e - q,
    {
        if !('0' <= s[q] && s[q] <= '9') {
            proof {
                assert(!is_digit(s@.subrange(a as int, e as int)[q - a]));
            }
            return None;
        }
        q = q + 1;
    }
    proof {
        assert forall|k: int| 0 <= k < s@.subrange(a as int, e as int).len() implies is_digit(
            #[trigger] s@.subrange(a as int, e as int)[k],
        ) by {
            assert(s@.subrange(a as int, e as int)[k] == s@[a + k]);
        }
    }
    let mut acc: u64 = 0;
    let mut k = a;
    proof {
        assert(s@.subrange(a as int, a as int) =~= Seq::<char>::empty());
    }
    while k < e
        invariant
            a <= k <= e <= s@.len(),
            forall|m: int| a <= m < e ==> is_digit(#[trigger] s@[m]),
            acc as nat == digits_value(s@.subrange(a as int, k as int)),
        decreases e - k,
    {
        let d = (s[k] as u32) - ('0' as u32);
        proof {
            assert(is_digit(s@[k as int]));
            assert(s@.subrange(a as int, k + 1).drop_last() =~= s@.subrange(a as int, k as int));
            assert(s@.subrange(a as int, k + 1).last() == s@[k as int]);
        }
        match acc.checked_mul(10) {
            None => {
                proof {
                    lemma_digits_monotone(s@, a as int, k + 1, e as int);
                }
                return None;
            },
            Some(m) => match m.checked_add(d as u64) {
                None => {
                    proof {
                        lemma_digits_monotone(s@, a as int, k + 1, e as int);
                    }
                    return None;
                },
                Some(v) => {
                    acc = v;
                },
            },
        }
        k = k + 1;
    }
    Some(acc)
}

fn find_spans(s: &[char], prefix: &[char], plus: &[char], gt: &[char], i: usize) -> (r: Option<(usize, usize, usize, usize, usize, usize)>)
    requires
        i <= s@.len(),
        prefix@ == overflow_prefix(),
        plus@ == " + "@,
        gt@ == " > "@,
    ensures
        match r {
            Some((a, ae, b, be, c, ce)) => spans_at(s@, i as int) == Some((a as int, ae as int, b as int, be as int, c as int, ce as int))
                && ce <= s@.len(),
            None => spans_at(s@, i as int) is None,
        },
{
    proof {
        reveal_strlit(" + ");
        reveal_strlit(" > ");
    }
    let n = s.len();
    if !matches_at(s, prefix, i) {
        return None;
    }
    assert(i + prefix@.len() <= n);
    let a = i + prefix.len();
    let ae = find_digits_end(s, a);
    if ae == a || !matches_at(s, plus, ae) {
        return None;
    }
    assert(ae + 3 <= n);
    let b = ae + 3;
    let be = find_digits_end(s, b);
    if be == b || !matches_at(s, gt, be) {
        return None;
    }
    assert(be + 3 <= n);
    let c = be + 3;
    let ce = find_digits_end(s, c);
    if ce == c {
        return None;
    }
    Some((a, ae, b, be, c, ce))
}

/// Recognises `input length and `max_tokens` exceed context limit: X + Y > Z`
/// in a 400 reply (leftmost occurrence) and returns X, Y and Z.
pub fn parse_context_overflow_error(status: u16, message: &str) -> (r: Option<ContextOverflowError>)
    ensures
        match r {
            Some(o) => parsed_overflow(status, message@) == Some(
                (o.input_tokens as nat, o.max_tokens as nat, o.context_limit as nat),
            ),
            None => parsed_overflow(status, message@) is None,
        },
{
    if status != 400 {
        return None;
    }
    let s = chars_of(message);
    let prefix = chars_of("input length and `max_tokens` exceed context limit: ");
    let plus = chars_of(" + ");
    let gt = chars_of(" > ");
    let mut i: usize = 0;
    loop
        invariant
            i <= s@.len(),
            s@ == message@,
            status == 400,
            prefix@ == overflow_prefix(),
            plus@ == " + "@,
            gt@ == " > "@,
            first_spans_from(s@, i as int) == first_spans_from(s@, 0),
        decreases s@.len() - i,
    {
        match find_spans(s.as_slice(), prefix.as_slice(), plus.as_slice(), gt.as_slice(), i) {
            Some((a, ae, b, be, c, ce)) => {
                proof {
                    lemma_digits_end(s@, a as int);
                    lemma_digits_end(s@, b as int);
                    lemma_digits_end(s@, c as int);
                    assert(first_spans_from(s@, i as int) == Some((a as int, ae as int, b as int, be as int, c as int, ce as int)));
                }
                let x = parse_digits(s.as_slice(), a, ae);
                let y = parse_digits(s.as_slice(), b, be);
                let z = parse_digits(s.as_slice(), c, ce);
                match (x, y, z) {
                    (Some(x), Some(y), Some(z)) => {
                        return Some(ContextOverflowError { input_tokens: x, max_tokens: y, context_limit: z });
                    },
                    _ => {
                        return None;
                    },
                }
            },
            None => {},
        }
        if i == s.len() {
            proof {
                assert(first_spans_from(s@, i + 1) is None);
            }
            return None;
        }
        i = i + 1;
    }
}


/// The output budget that lets the request fit: at least `MIN_OUTPUT_TOKENS`,
/// above the thinking budget, and otherwise everything left below the limit;
/// `None` when less than `MIN_OUTPUT_TOKENS` is left.
pub fn calculate_adjusted_max_tokens(overflow: &ContextOverflowError, max_thinking_tokens: u64) -> (r: Option<u64>)
    requires
        adjustable(overflow.input_tokens as int, overflow.context_limit as int, max_thinking_tokens as int),
    ensures
        match r {
            Some(v) => adjusted_tokens(overflow.input_tokens as int, overflow.context_limit as int, max_thinking_tokens as int) == Some(v as int),
            None => adjusted_tokens(overflow.input_tokens as int, overflow.context_limit as int, max_thinking_tokens as int) is None,
        },
{
    let available = overflow.context_limit.saturating_sub(overflow.input_tokens).saturating_sub(RESERVE_BUFFER);
    if available < MIN_OUTPUT_TOKENS {
        return None;
    }
    let thinking = max_thinking_tokens + 1;
    let mut adjusted = if available >= MIN_OUTPUT_TOKENS { available } else { MIN_OUTPUT_TOKENS };
    if thinking > adjusted {
        adjusted = thinking;
    }
    Some(adjusted)
}

/// Every adjusted budget is at least `MIN_OUTPUT_TOKENS`, exceeds the thinking
/// budget, and uses all the room left below the limit.
pub proof fn lemma_adjusted_budget_bounds(input: int, limit: int, thinking: int)
    requires
        adjusted_tokens(input, limit, thinking) is Some,
    ensures
        adjusted_tokens(input, limit, thinking)->0 >= MIN_OUTPUT_TOKENS,
        adjusted_tokens(input, limit, thinking)->0 > thinking,
        adjusted_tokens(input, limit, thinking)->0 >= available_tokens(input, limit),
        available_tokens(input, limit) > thinking ==> adjusted_tokens(input, limit, thinking)->0
            == available_tokens(input, limit),
        available_tokens(input, limit) + input + RESERVE_BUFFER <= limit,
{
}

/// The budget to retry with after a reply, when the reply is a recoverable
/// context overflow.
pub open spec fn handled_overflow(status: u16, msg: Seq<char>, thinking: int) -> Result<int, OverflowRecoveryError> {
    match parsed_overflow(status, msg) {
        None => Err(OverflowRecoveryError::NotOverflowError),
        Some((x, y, z)) => match adjusted_tokens(x as int, z as int, thinking) {
            Some(v) => Ok(v),
            None => Err(OverflowRecoveryError::CannotRecover { input_tokens: x as u64, context_limit: z as u64 }),
        },
    }
}

/// The adjustment is computable for what the reply carries.
pub open spec fn overflow_adjustable(status: u16, msg: Seq<char>, thinking: int) -> bool {
    match parsed_overflow(status, msg) {
        Some((x, y, z)) => adjustable(x as int, z as int, thinking),
        None => true,
    }
}

/// The adjusted `max_tokens` for an overflow reply, or why there is none.
pub fn handle_context_overflow(status: u16, message: &str, max_thinking_tokens: u64) -> (r: Result<u64, OverflowRecoveryError>)
    requires
        overflow_adjustable(status, message@, max_thinking_tokens as int),
    ensures
        match r {
            Ok(v) => handled_overflow(status, message@, max_thinking_tokens as int) == Ok::<int, OverflowRecoveryError>(v as int),
            Err(e) => handled_overflow(status, message@, max_thinking_tokens as int) == Err::<int, OverflowRecoveryError>(e),
        },
{
    let overflow = match parse_context_overflow_error(status, message) {
        Some(o) => o,
        None => return Err(OverflowRecoveryError::NotOverflowError),
    };
    match calculate_adjusted_max_tokens(&overflow, max_thinking_tokens) {
        Some(v) => Ok(v),
        None => Err(OverflowRecoveryError::CannotRecover {
            input_tokens: overflow.input_tokens,
            context_limit: overflow.context_limit,
        }),
    }
}

/// What to do after a failed attempt.
#[derive(Debug, Clone, PartialEq, Eq)]
pub enum RecoveryDecision {
    /// Give up with this error.
    Fail(OverflowRecoveryError),
    /// Send the request again with this `max_tokens`.
    Retry(u64),
}

/// The decision taken when attempt `attempt` (counting from 1) fails: a reply
/// that is not an overflow ends the run with `RequestFailed`; an overflow on the
/// last allowed attempt ends it with `MaxRetriesExceeded`; otherwise the request
/// is retried with the adjusted budget, or the run ends with `CannotRecover`.
pub fn decide_after_failure(attempt: u32, options: &OverflowRecoveryOptions, error: &RequestError) -> (r: RecoveryDecision)
    requires
        attempt < options.max_retries ==> overflow_adjustable(error.status, error.message@, options.max_thinking_tokens as int),
    ensures
        parsed_overflow(error.status, error.message@) is None ==> (r matches RecoveryDecision::Fail(OverflowRecoveryError::RequestFailed(m)) && m@ == error.message@),
        parsed_overflow(error.status, error.message@) is Some && attempt >= options.max_retries
            ==> r == RecoveryDecision::Fail(OverflowRecoveryError::MaxRetriesExceeded { attempts: attempt }),
        parsed_overflow(error.status, error.message@) is Some && attempt < options.max_retries
            ==> match handled_overflow(error.status, error.message@, options.max_thinking_tokens as int) {
                Ok(v) => r == RecoveryDecision::Retry(v as u64),
                Err(e) => r == RecoveryDecision::Fail(e),
            },
{
    let overflow = match parse_context_overflow_error(error.status, error.message.as_str()) {
        Some(o) => o,
        None => return RecoveryDecision::Fail(OverflowRecoveryError::RequestFailed(error.message.clone())),
    };
    if attempt >= options.max_retries {
        return RecoveryDecision::Fail(OverflowRecoveryError::MaxRetriesExceeded { attempts: attempt });
    }
    match calculate_adjusted_max_tokens(&overflow, options.max_thinking_tokens) {
        Some(v) => RecoveryDecision::Retry(v),
        None => RecoveryDecision::Fail(OverflowRecoveryError::CannotRecover {
            input_tokens: overflow.input_tokens,
            context_limit: overflow.context_limit,
        }),
    }
}

/// The next move of a recovery run.
#[derive(Debug, Clone, PartialEq, Eq)]
pub enum RecoveryAction {
    /// Send the request, as attempt number `attempt` (counting from 1), with
    /// this `max_tokens`.
    Send { attempt: u32, max_tokens: Option<u64> },
    /// End the run with this error.
    GiveUp(OverflowRecoveryError),
}

/// How a recovery run starts: the first attempt with the caller's
/// `max_tokens`, or, when no attempt is allowed, `MaxRetriesExceeded` with
/// zero attempts.
pub fn first_recovery_action(options: &OverflowRecoveryOptions) -> (r: RecoveryAction)
    ensures
        options.max_retries == 0 ==> r == RecoveryAction::GiveUp(OverflowRecoveryError::MaxRetriesExceeded { attempts: 0 }),
        options.max_retries > 0 ==> r == (RecoveryAction::Send { attempt: 1, max_tokens: options.max_tokens }),
{
    if options.max_retries == 0 {
        RecoveryAction::GiveUp(OverflowRecoveryError::MaxRetriesExceeded { attempts: 0 })
    } else {
        RecoveryAction::Send { attempt: 1, max_tokens: options.max_tokens }
    }
}

/// What a recovery run does when attempt `attempt` fails with `error`: the
/// retry notice `(attempt, adjusted)` to hand to the caller's callback, if
/// any, and the next move (see `decide_after_failure`). A retry is the next
/// attempt, with the adjusted budget, and is announced before it is sent; no
/// attempt beyond `max_retries` is ever sent, so a run sends at most
/// `max_retries` requests.
pub fn next_recovery_action(attempt: u32, options: &OverflowRecoveryOptions, error: &RequestError) -> (r: (Option<(u32, u64)>, RecoveryAction))
    requires
        1 <= attempt <= options.max_retries,
        attempt < options.max_retries ==> overflow_adjustable(error.status, error.message@, options.max_thinking_tokens as int),
    ensures
        parsed_overflow(error.status, error.message@) is None ==> r.0 is None
            && (r.1 matches RecoveryAction::GiveUp(OverflowRecoveryError::RequestFailed(m)) && m@ == error.message@),
        parsed_overflow(error.status, error.message@) is Some && attempt >= options.max_retries
            ==> r == (None::<(u32, u64)>, RecoveryAction::GiveUp(OverflowRecoveryError::MaxRetriesExceeded { attempts: attempt })),
        parsed_overflow(error.status, error.message@) is Some && attempt < options.max_retries
            ==> match handled_overflow(error.status, error.message@, options.max_thinking_tokens as int) {
                Ok(v) => r == (Some((attempt, v as u64)), RecoveryAction::Send { attempt: (attempt + 1) as u32, max_tokens: Some(v as u64) }),
                Err(e) => r == (None::<(u32, u64)>, RecoveryAction::GiveUp(e)),
            },
        r.1 matches RecoveryAction::Send { attempt: a, .. } ==> a == attempt + 1 && a <= options.max_retries,
        r.1 matches RecoveryAction::Send { max_tokens: m, .. } ==> (r.0 matches Some(n) && n.0 == attempt && m == Some(n.1)),
{
    match decide_after_failure(attempt, options, error) {
        RecoveryDecision::Retry(v) => (Some((attempt, v)), RecoveryAction::Send { attempt: attempt + 1, max_tokens: Some(v) }),
        RecoveryDecision::Fail(e) => (None, RecoveryAction::GiveUp(e)),
    }
}

impl OverflowRecoveryError {
    /// The error's message, as its `Display` writes it.
    pub fn message(&self) -> (r: String)
        ensures
            r@ == match self {
                OverflowRecoveryError::NotOverflowError => "Not a context overflow error"@,
                OverflowRecoveryError::CannotRecover { input_tokens, context_limit } => "Cannot recover: input="@
                    + decimal(*input_tokens as nat) + ", limit="@ + decimal(*context_limit as nat),
                OverflowRecoveryError::MaxRetriesExceeded { attempts } => "Max retries exceeded after "@
                    + decimal(*attempts as nat) + " attempts"@,
                OverflowRecoveryError::RequestFailed(m) => "Request failed: "@ + m@,
            },
    {
        match self {
            OverflowRecoveryError::NotOverflowError => String::from_str("Not a context overflow error"),
            OverflowRecoveryError::CannotRecover { input_tokens, context_limit } => {
                let mut r = String::from_str("Cannot recover: input=");
                let a = u64_to_string(*input_tokens);
                r.append(a.as_str());
                r.append(", limit=");
                let b = u64_to_string(*context_limit);
                r.append(b.as_str());
                r
            },
            OverflowRecoveryError::MaxRetriesExceeded { attempts } => {
                let mut r = String::from_str("Max retries exceeded after ");
                let a = u64_to_string(*attempts as u64);
                r.append(a.as_str());
                r.append(" attempts");
                r
            },
            OverflowRecoveryError::RequestFailed(m) => concat_str("Request failed: ", m.as_str()),
        }
    }
}

} // verus!
