//! Evaluating a solution's arithmetic and scoring it against the target.

use vstd::prelude::*;

verus! {

/// A white-space character: the characters of Unicode's `White_Space` property,
/// which `str::trim` strips.
pub open spec fn is_white_space(c: char) -> bool {
    ('\u{9}' <= c && c <= '\u{d}') || c == ' ' || c == '\u{85}' || c == '\u{a0}' || c
        == '\u{1680}' || ('\u{2000}' <= c && c <= '\u{200a}') || c == '\u{2028}' || c
        == '\u{2029}' || c == '\u{202f}' || c == '\u{205f}' || c == '\u{3000}'
}

/// `s` without its leading white space.
pub open spec fn trim_start(s: Seq<char>) -> Seq<char>
    decreases s.len(),
{
    if s.len() > 0 && is_white_space(s[0]) {
        trim_start(s.drop_first())
    } else {
        s
    }
}

/// `s` without its trailing white space.
pub open spec fn trim_end(s: Seq<char>) -> Seq<char>
    decreases s.len(),
{
    if s.len() > 0 && is_white_space(s.last()) {
        trim_end(s.drop_last())
    } else {
        s
    }
}

/// `s` without its leading and trailing white space.
pub open spec fn trimmed(s: Seq<char>) -> Seq<char> {
    trim_end(trim_start(s))
}

/// Text made only of the characters of arithmetic: ASCII digits, parentheses,
/// the four operators and white space.
pub open spec fn is_arithmetic(s: Seq<char>) -> bool {
    forall|i: int|
        0 <= i < s.len() ==> {
            let c = #[trigger] s[i];
            ('0' <= c && c <= '9') || c == '(' || c == ')' || c == '+' || c == '-' || c == '*'
                || c == '/' || is_white_space(c)
        }
}

/// What num_parser makes of an expression of arithmetic: its integer value, or
/// nothing where it does not parse or its value is no integer.
pub uninterp spec fn expression_value(expression: Seq<char>) -> Option<i64>;

/// The distance between a value and the target.
pub open spec fn distance(value: int, target: int) -> int {
    if value >= target {
        value - target
    } else {
        target - value
    }
}

/// The score of an evaluated value: its distance from the target, where that fits
/// in a `u32`.
pub open spec fn value_score(value: i64, target: u32) -> Option<u32> {
    if distance(value as int, target as int) <= u32::MAX {
        Some(distance(value as int, target as int) as u32)
    } else {
        None
    }
}

/// The score of an expression's evaluation: none where it failed.
pub open spec fn calculation_score(value: Option<i64>, target: u32) -> Option<u32> {
    match value {
        Some(v) => value_score(v, target),
        None => None,
    }
}

/// The longest expression handed to the evaluator. num_parser recurses once per
/// operator and keeps token positions in an `i16`, so longer text could overflow
/// either; a solution of six numbers needs far less.
pub const MAX_EXPRESSION_LEN: usize = 256;

/// Text that the evaluator is given: text of arithmetic, and no longer than
/// `MAX_EXPRESSION_LEN` characters.
pub open spec fn is_evaluable(s: Seq<char>) -> bool {
    is_arithmetic(s) && s.len() <= MAX_EXPRESSION_LEN
}

/// The score of a solution's arithmetic: none where the text is blank, is not
/// text of arithmetic of at most `MAX_EXPRESSION_LEN` characters, or does not
/// evaluate to an integer; otherwise the distance of its value from the target.
pub open spec fn solution_calculation(solution: Seq<char>, target: u32) -> Option<u32> {
    if trimmed(solution).len() == 0 || !is_evaluable(solution) {
        None
    } else {
        calculation_score(expression_value(solution), target)
    }
}

/// Relies on num_parser::eval, which parses and evaluates an expression in the
/// default context, and on num_parser::Value::as_int, which gives its value as an
/// integer where it is one. On short text of arithmetic both depend on the text
/// alone (num_parser's random function needs letters) and do not panic.
#[verifier::external_body]
fn evaluate(expression: &str) -> (value: Option<i64>)
    requires
        is_evaluable(expression@),
    ensures
        value == expression_value(expression@),
{
    match num_parser::eval(expression) {
        Ok(result) => result.as_int().ok(),
        Err(_) => None,
    }
}

/// Whether `s` is text of arithmetic.
fn arithmetic_text(s: &str) -> (r: bool)
    ensures
        r == is_arithmetic(s@),
{
    let n = s.unicode_len();
    let mut i: usize = 0;
    while i < n
        invariant
            n == s@.len(),
            i <= n,
            forall|j: int| 0 <= j < i ==> {
                let c = #[trigger] s@[j];
                ('0' <= c && c <= '9') || c == '(' || c == ')' || c == '+' || c == '-' || c
                    == '*' || c == '/' || is_white_space(c)
            },
        decreases n - i,
    {
        let c = s.get_char(i);
        if !(('0' <= c && c <= '9') || c == '(' || c == ')' || c == '+' || c == '-' || c == '*'
            || c == '/' || white_space(c)) {
            assert(s@[i as int] == c);
            return false;
        }
        i = i + 1;
    }
    true
}

/// Whether `c` is white space, as `is_white_space` says.
fn white_space(c: char) -> (r: bool)
    ensures
        r == is_white_space(c),
{
    ('\u{9}' <= c && c <= '\u{d}') || c == ' ' || c == '\u{85}' || c == '\u{a0}' || c
        == '\u{1680}' || ('\u{2000}' <= c && c <= '\u{200a}') || c == '\u{2028}' || c
        == '\u{2029}' || c == '\u{202f}' || c == '\u{205f}' || c == '\u{3000}'
}

/// `s` without its leading and trailing white space.
pub fn trim_white_space(s: &str) -> (t: &str)
    ensures
        t@ == trimmed(s@),
{
    let ghost text = s@;
    let n = s.unicode_len();
    let mut start: usize = 0;
    assert(text.subrange(0, n as int) =~= text);
    while start < n && white_space(s.get_char(start))
        invariant
            n == text.len(),
            text == s@,
            start <= n,
            trim_start(text) == trim_start(text.subrange(start as int, n as int)),
        decreases n - start,
    {
        assert(text.subrange(start as int, n as int).drop_first() =~= text.subrange(
            start + 1,
            n as int,
        ));
        start = start + 1;
    }
    let ghost rest = text.subrange(start as int, n as int);
    assert(trim_start(text) == rest) by {
        if rest.len() > 0 {
            assert(rest[0] == text[start as int]);
        }
    }
    let mut end: usize = n;
    while end > start && white_space(s.get_char(end - 1))
        invariant
            n == text.len(),
            text == s@,
            start <= end <= n,
            rest == text.subrange(start as int, n as int),
            trim_end(rest) == trim_end(text.subrange(start as int, end as int)),
        decreases end - start,
    {
        assert(text.subrange(start as int, end as int).drop_last() =~= text.subrange(
            start as int,
            end - 1,
        ));
        end = end - 1;
    }
    assert(trim_end(text.subrange(start as int, end as int)) == text.subrange(
        start as int,
        end as int,
    ));
    s.substring_char(start, end)
}

/// The score of an evaluated value against the target: the distance between
/// them, whichever is larger, where it fits in a `u32`.
pub fn score_value(value: i64, target: u32) -> (score: Option<u32>)
    ensures
        score == value_score(value, target),
        score matches Some(d) ==> d as int == distance(value as int, target as int),
{
    let v = value as i128;
    let t = target as i128;
    let d = if v >= t {
        v - t
    } else {
        t - v
    };
    if d <= u32::MAX as i128 {
        Some(d as u32)
    } else {
        None
    }
}

/// Evaluates `solution` as arithmetic and scores it against `target`. A blank
/// solution, one with other characters than those of arithmetic or longer than
/// `MAX_EXPRESSION_LEN`, and one that does not evaluate to an integer have no
/// score.
pub fn check_solution_calculation(solution: &str, target: u32) -> (score: Option<u32>)
    ensures
        score == solution_calculation(solution@, target),
        trimmed(solution@).len() == 0 ==> score is None,
{
    if trim_white_space(solution).unicode_len() == 0 {
        return None;
    }
    if solution.unicode_len() > MAX_EXPRESSION_LEN || !arithmetic_text(solution) {
        return None;
    }
    match evaluate(solution) {
        Some(value) => score_value(value, target),
        None => None,
    }
}

} // verus!
