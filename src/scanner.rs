//! Extraction of the integer literals typed in a solution.

use vstd::prelude::*;

verus! {

/// An ASCII decimal digit.
pub open spec fn is_digit(c: char) -> bool {
    '0' <= c && c <= '9'
}

/// The value of an ASCII digit.
pub open spec fn digit_value(c: char) -> nat {
    (c as u32 - '0' as u32) as nat
}

/// The value of a string of decimal digits, most significant first.
pub open spec fn decimal_value(d: Seq<char>) -> nat
    decreases d.len(),
{
    if d.len() == 0 {
        0
    } else {
        decimal_value(d.drop_last()) * 10 + digit_value(d.last())
    }
}

/// The ASCII digit of a value below ten.
pub open spec fn digit_char(d: nat) -> char {
    ((d + 48) as u8) as char
}

/// The decimal digits of `n`, most significant first.
pub open spec fn decimal_text(n: nat) -> Seq<char>
    decreases n,
{
    let digit = digit_char(n % 10);
    if n < 10 {
        seq![digit]
    } else {
        decimal_text(n / 10).push(digit)
    }
}

/// The maximal runs of ASCII digits of `s`, in order: what remains of `s` after
/// splitting it at every other character and dropping the empty pieces.
pub open spec fn digit_runs(s: Seq<char>) -> Seq<Seq<char>>
    decreases s.len(),
{
    if s.len() == 0 {
        Seq::empty()
    } else {
        let rest = s.drop_last();
        let runs = digit_runs(rest);
        if !is_digit(s.last()) {
            runs
        } else if rest.len() > 0 && is_digit(rest.last()) {
            runs.drop_last().push(runs.last().push(s.last()))
        } else {
            runs.push(seq![s.last()])
        }
    }
}

/// The values of the runs that fit in a `u32`, in order; the others are left out.
pub open spec fn run_values(runs: Seq<Seq<char>>) -> Seq<u32>
    decreases runs.len(),
{
    if runs.len() == 0 {
        Seq::empty()
    } else {
        let before = run_values(runs.drop_last());
        if decimal_value(runs.last()) <= u32::MAX {
            before.push(decimal_value(runs.last()) as u32)
        } else {
            before
        }
    }
}

/// The integer literals of a solution, in the order they were typed.
pub open spec fn solution_literals(s: Seq<char>) -> Seq<u32> {
    run_values(digit_runs(s))
}

/// Appending a digit multiplies the value by ten and adds the digit, so the
/// value never shrinks.
proof fn lemma_value_grows(d: Seq<char>, c: char)
    requires
        is_digit(c),
    ensures
        decimal_value(d.push(c)) >= decimal_value(d),
        decimal_value(d.push(c)) == decimal_value(d) * 10 + digit_value(c),
{
    assert(d.push(c).drop_last() =~= d);
}

/// The integer literals of `solution`: the maximal runs of ASCII digits, each read
/// as a decimal number, in order. A run whose value does not fit in a `u32` is
/// skipped.
pub fn get_solution_numbers(solution: &str) -> (numbers: Vec<u32>)
    ensures
        numbers@ == solution_literals(solution@),
{
    let mut numbers: Vec<u32> = Vec::new();
    // the value of the run in progress, or a value above u32::MAX once it has grown past it
    let mut current: u64 = 0;
    let mut in_run = false;
    let ghost s = solution@;
    let mut i: usize = 0;
    let n = solution.unicode_len();
    while i < n
        invariant
            n == s.len(),
            s == solution@,
            i <= n,
            current <= 10 * (u32::MAX as u64) + 9,
            in_run == (i > 0 && is_digit(s[i - 1])),
            in_run ==> ({
                let runs = digit_runs(s.take(i as int));
                &&& runs.len() > 0
                &&& numbers@ == run_values(runs.drop_last())
                &&& current <= u32::MAX ==> current == decimal_value(runs.last())
                &&& current > u32::MAX ==> decimal_value(runs.last()) > u32::MAX
            }),
            !in_run ==> numbers@ == run_values(digit_runs(s.take(i as int))),
        decreases n - i,
    {
        let c = solution.get_char(i);
        let ghost prefix = s.take(i as int);
        let ghost next = s.take(i + 1);
        assert(next.drop_last() =~= prefix);
        assert(next.last() == c);
        if '0' <= c && c <= '9' {
            let d = (c as u32 - '0' as u32) as u64;
            if in_run {
                let ghost runs = digit_runs(prefix);
                proof {
                    lemma_value_grows(runs.last(), c);
                    assert(digit_runs(next).drop_last() =~= runs.drop_last());
                }
                if current <= u32::MAX as u64 {
                    current = current * 10 + d;
                }
            } else {
                let ghost runs = digit_runs(prefix);
                proof {
                    assert(digit_runs(next).drop_last() =~= runs);
                    lemma_value_grows(Seq::empty(), c);
                    assert(Seq::<char>::empty().push(c) =~= seq![c]);
                }
                current = d;
                in_run = true;
            }
        } else {
            if in_run {
                let ghost runs = digit_runs(prefix);
                if current <= u32::MAX as u64 {
                    numbers.push(current as u32);
                }
                proof {
                    assert(runs.drop_last().push(runs.last()) =~= runs);
                }
            }
            in_run = false;
        }
        i = i + 1;
    }
    if in_run {
        let ghost runs = digit_runs(s.take(i as int));
        if current <= u32::MAX as u64 {
            numbers.push(current as u32);
        }
        proof {
            assert(runs.drop_last().push(runs.last()) =~= runs);
        }
    }
    proof {
        assert(s.take(n as int) =~= s);
    }
    numbers
}

} // verus!
