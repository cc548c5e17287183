//! Small string helpers: decimal rendering of numbers and substring
//! replacement, each with a mathematical statement of its result.

use vstd::prelude::*;
use vstd::string::*;

verus! {

/// The character that writes the digit `d` (`d < 10`).
pub open spec fn digit_char(d: nat) -> char {
    if d == 0 {
        '0'
    } else if d == 1 {
        '1'
    } else if d == 2 {
        '2'
    } else if d == 3 {
        '3'
    } else if d == 4 {
        '4'
    } else if d == 5 {
        '5'
    } else if d == 6 {
        '6'
    } else if d == 7 {
        '7'
    } else if d == 8 {
        '8'
    } else {
        '9'
    }
}

/// The decimal numeral of `n`, most significant digit first, without
/// leading zeros.
pub open spec fn decimal_digits(n: nat) -> Seq<char>
    decreases n,
{
    if n < 10 {
        seq![digit_char(n)]
    } else {
        decimal_digits(n / 10).push(digit_char(n % 10))
    }
}

/// `text` with every occurrence of `from` replaced by `to`. Occurrences
/// are found from left to right and do not overlap: after a match the scan
/// goes on behind it, and the inserted text is not scanned. An empty `from`
/// occurs nowhere.
pub open spec fn replace_all(text: Seq<char>, from: Seq<char>, to: Seq<char>) -> Seq<char>
    decreases text.len(),
{
    if from.len() == 0 || text.len() < from.len() {
        text
    } else if text.subrange(0, from.len() as int) == from {
        to + replace_all(text.subrange(from.len() as int, text.len() as int), from, to)
    } else {
        seq![text[0]] + replace_all(text.subrange(1, text.len() as int), from, to)
    }
}

/// Whether `from` occurs in `text` at position `at`.
pub open spec fn occurs_at(text: Seq<char>, from: Seq<char>, at: int) -> bool {
    0 <= at && at + from.len() <= text.len() && text.subrange(at, at + from.len()) == from
}

/// Whether `from` occurs anywhere in `text`.
pub open spec fn occurs_in(text: Seq<char>, from: Seq<char>) -> bool {
    exists|at: int| occurs_at(text, from, at)
}

/// Replacing a pattern that does not occur leaves the text as it is.
pub proof fn lemma_replace_absent(text: Seq<char>, from: Seq<char>, to: Seq<char>)
    requires
        !occurs_in(text, from),
    ensures
        replace_all(text, from, to) == text,
    decreases text.len(),
{
    if from.len() == 0 || text.len() < from.len() {
    } else {
        assert(!occurs_at(text, from, 0));
        let rest = text.subrange(1, text.len() as int);
        assert forall|at: int| !occurs_at(rest, from, at) by {
            if occurs_at(rest, from, at) {
                assert(rest.subrange(at, at + from.len()) =~= text.subrange(
                    at + 1,
                    at + 1 + from.len(),
                ));
                assert(occurs_at(text, from, at + 1));
            }
        }
        lemma_replace_absent(rest, from, to);
        assert(seq![text[0]] + rest =~= text);
    }
}

fn digit_text(d: usize) -> (r: &'static str)
    requires
        d < 10,
    ensures
        r@ == seq![digit_char(d as nat)],
{
    proof {
        reveal_strlit("0");
        reveal_strlit("1");
        reveal_strlit("2");
        reveal_strlit("3");
        reveal_strlit("4");
        reveal_strlit("5");
        reveal_strlit("6");
        reveal_strlit("7");
        reveal_strlit("8");
        reveal_strlit("9");
    }
    let r: &'static str = if d == 0 {
        "0"
    } else if d == 1 {
        "1"
    } else if d == 2 {
        "2"
    } else if d == 3 {
        "3"
    } else if d == 4 {
        "4"
    } else if d == 5 {
        "5"
    } else if d == 6 {
        "6"
    } else if d == 7 {
        "7"
    } else if d == 8 {
        "8"
    } else {
        "9"
    };
    assert(r@ =~= seq![digit_char(d as nat)]);
    r
}

/// Writes `n` in decimal.
pub fn decimal(n: usize) -> (r: String)
    ensures
        r@ == decimal_digits(n as nat),
    decreases n,
{
    if n < 10 {
        String::from_str(digit_text(n))
    } else {
        let head = decimal(n / 10);
        let r = head.concat(digit_text(n % 10));
        assert(r@ =~= decimal_digits(n as nat));
        r
    }
}

/// The characters of `text`.
fn chars_of(text: &str) -> (r: Vec<char>)
    ensures
        r@ == text@,
{
    broadcast use axiom_spec_iter;

    let mut r: Vec<char> = Vec::new();
    for c in it: text.chars()
        invariant
            it.seq() == text@,
            r@ == it.history(),
    {
        r.push(c);
    }
    assert(r@ =~= text@);
    r
}

/// Whether `from` occurs in `text` at position `at`.
fn matches_at(text: &Vec<char>, from: &Vec<char>, at: usize) -> (r: bool)
    requires
        at + from@.len() <= text@.len(),
    ensures
        r == occurs_at(text@, from@, at as int),
{
    let mut k: usize = 0;
    while k < from.len()
        invariant
            k <= from@.len(),
            at + from@.len() <= text@.len(),
            forall|j: int| 0 <= j < k ==> text@[at + j] == from@[j],
        decreases from.len() - k,
    {
        assert(at + k < text.len());
        if text[at + k] != from[k] {
            assert(text@.subrange(at as int, at + from@.len())[k as int] != from@[k as int]);
            return false;
        }
        k += 1;
    }
    assert(text@.subrange(at as int, at + from@.len()) =~= from@);
    true
}

/// Replaces every occurrence of `from` in `text` by `to`, scanning from
/// left to right; the replacements are not scanned again. With an empty
/// `from` the text comes back as it is.
pub fn replace(text: &str, from: &str, to: &str) -> (r: String)
    ensures
        r@ == replace_all(text@, from@, to@),
{
    let source = chars_of(text);
    let pattern = chars_of(from);
    let n: usize = source.len();
    let m: usize = pattern.len();
    if m == 0 {
        return String::from_str(text);
    }
    let mut out = String::new();
    let mut start: usize = 0;
    let mut i: usize = 0;
    assert(text@.subrange(0, n as int) =~= text@);
    assert(out@ + text@.subrange(0, 0) =~= Seq::<char>::empty());
    assert(Seq::<char>::empty() + replace_all(text@, from@, to@) =~= replace_all(
        text@,
        from@,
        to@,
    ));
    while n - i >= m
        invariant
            start <= i <= n,
            n == text@.len(),
            m == from@.len(),
            m > 0,
            source@ == text@,
            pattern@ == from@,
            replace_all(text@, from@, to@) == out@ + text@.subrange(start as int, i as int)
                + replace_all(text@.subrange(i as int, n as int), from@, to@),
        decreases n - i,
    {
        let ghost rest = text@.subrange(i as int, n as int);
        assert(rest.subrange(0, m as int) =~= text@.subrange(i as int, i + m));
        if matches_at(&source, &pattern, i) {
            assert(rest.subrange(m as int, rest.len() as int) =~= text@.subrange(i + m, n as int));
            out.append(text.substring_char(start, i));
            out.append(to);
            i += m;
            start = i;
            assert(out@ + text@.subrange(start as int, i as int) =~= out@);
        } else {
            assert(rest.subrange(1, rest.len() as int) =~= text@.subrange(i + 1, n as int));
            assert(text@.subrange(start as int, i as int) + seq![rest[0]] =~= text@.subrange(
                start as int,
                i + 1,
            ));
            assert(out@ + text@.subrange(start as int, i as int) + (seq![rest[0]] + replace_all(
                text@.subrange(i + 1, n as int),
                from@,
                to@,
            )) =~= out@ + text@.subrange(start as int, i + 1) + replace_all(
                text@.subrange(i + 1, n as int),
                from@,
                to@,
            ));
            i += 1;
        }
    }
    assert(text@.subrange(start as int, i as int) + text@.subrange(i as int, n as int)
        =~= text@.subrange(start as int, n as int));
    let ghost done = out@;
    out.append(text.substring_char(start, n));
    assert(out@ =~= done + text@.subrange(start as int, i as int) + text@.subrange(
        i as int,
        n as int,
    ));
    out
}

} // verus!
