//! Reading identifiers and numbers out of the texts that interactions
//! carry.

use vstd::prelude::*;

verus! {

/// Whether `text` begins with `prefix`.
pub open spec fn starts_with(text: Seq<char>, prefix: Seq<char>) -> bool {
    prefix.len() <= text.len() && text.take(prefix.len() as int) == prefix
}

/// Whether `c` is one of the digits `0` to `9`.
pub open spec fn is_digit(c: char) -> bool {
    '0' <= c && c <= '9'
}

/// The number a digit stands for.
pub open spec fn digit_value(c: char) -> nat {
    (c as u32 - '0' as u32) as nat
}

/// Whether `text` consists of digits only.
pub open spec fn all_digits(text: Seq<char>) -> bool {
    forall|i: int| 0 <= i < text.len() ==> is_digit(#[trigger] text[i])
}

/// The number that a text of digits stands for in base ten.
pub open spec fn digits_value(digits: Seq<char>) -> nat
    decreases digits.len(),
{
    if digits.len() == 0 {
        0
    } else {
        digits_value(digits.drop_last()) * 10 + digit_value(digits.last())
    }
}

/// A number's text without the plus sign that may lead it.
pub open spec fn unsigned_part(text: Seq<char>) -> Seq<char> {
    if text.len() > 0 && text[0] == '+' {
        text.drop_first()
    } else {
        text
    }
}

/// The number that `text` stands for, if it is a number of at most `max`:
/// an optional plus sign and then one digit or more, nothing else.
pub open spec fn number(text: Seq<char>, max: nat) -> Option<nat> {
    let digits = unsigned_part(text);
    if digits.len() > 0 && all_digits(digits) && digits_value(digits) <= max {
        Some(digits_value(digits))
    } else {
        None
    }
}

/// The place of the first `mark` in `text`, or the length of `text` if it
/// holds none.
pub open spec fn first_of(text: Seq<char>, mark: char) -> nat
    decreases text.len(),
{
    if text.len() == 0 || text[0] == mark {
        0
    } else {
        1 + first_of(text.drop_first(), mark)
    }
}

/// The texts between the marks of `text`: one more than it has marks.
pub open spec fn pieces(text: Seq<char>, mark: char) -> Seq<Seq<char>>
    decreases text.len(),
{
    let end = first_of(text, mark);
    if end >= text.len() {
        seq![text]
    } else {
        seq![text.take(end as int)] + pieces(text.skip(end as int + 1), mark)
    }
}

/// A text whose first `scanned` characters are not the mark has its first
/// mark where the rest has it.
pub proof fn lemma_first_of(text: Seq<char>, mark: char, scanned: int)
    requires
        0 <= scanned <= text.len(),
        forall|k: int| 0 <= k < scanned ==> text[k] != mark,
    ensures
        first_of(text, mark) == scanned + first_of(text.skip(scanned), mark),
        first_of(text, mark) <= text.len(),
    decreases text.len(),
{
    if text.len() == 0 {
        assert(text.skip(0) =~= text);
    } else if scanned == 0 {
        assert(text.skip(0) =~= text);
        if text[0] != mark {
            lemma_first_of(text.drop_first(), mark, 0);
        }
    } else {
        assert(text[0] != mark);
        assert forall|k: int| 0 <= k < scanned - 1 implies text.drop_first()[k] != mark by {
            assert(text.drop_first()[k] == text[k + 1]);
        }
        lemma_first_of(text.drop_first(), mark, scanned - 1);
        assert(text.drop_first().skip(scanned - 1) =~= text.skip(scanned));
    }
}

/// Finds the first `mark` in `text` at or after `from`: its place, or the
/// length of `text` if there is none.
pub fn find_from(text: &str, from: usize, mark: char) -> (end: usize)
    requires
        from <= text@.len(),
    ensures
        end == from + first_of(text@.skip(from as int), mark),
        from <= end <= text@.len(),
{
    let n = text.unicode_len();
    let ghost rest = text@.skip(from as int);
    let mut end: usize = from;
    while end < n && text.get_char(end) != mark
        invariant
            from <= end <= n,
            n == text@.len(),
            rest == text@.skip(from as int),
            forall|k: int| 0 <= k < end - from ==> rest[k] != mark,
        decreases n - end,
    {
        end += 1;
    }
    proof {
        lemma_first_of(rest, mark, end - from);
        if end < n {
            assert(rest.skip(end - from)[0] == mark);
        }
    }
    end
}

proof fn lemma_value_grows(digits: Seq<char>, k: int)
    requires
        0 <= k <= digits.len(),
    ensures
        digits_value(digits.take(k)) <= digits_value(digits),
    decreases digits.len(),
{
    if k < digits.len() {
        lemma_value_grows(digits.drop_last(), k);
        assert(digits.drop_last().take(k) =~= digits.take(k));
    } else {
        assert(digits.take(k) =~= digits);
    }
}

/// Whether `text` begins with `prefix`.
pub fn has_prefix(text: &str, prefix: &str) -> (found: bool)
    ensures
        found == starts_with(text@, prefix@),
{
    let n = prefix.unicode_len();
    if text.unicode_len() < n {
        return false;
    }
    let mut i: usize = 0;
    while i < n
        invariant
            i <= n,
            n == prefix@.len(),
            n <= text@.len(),
            forall|k: int| 0 <= k < i ==> text@[k] == prefix@[k],
        decreases n - i,
    {
        if text.get_char(i) != prefix.get_char(i) {
            assert(text@.take(n as int)[i as int] != prefix@[i as int]);
            return false;
        }
        i += 1;
    }
    assert(text@.take(n as int) =~= prefix@);
    true
}

/// Whether `a` and `b` are the same text.
pub fn same_text(a: &str, b: &str) -> (same: bool)
    ensures
        same == (a@ == b@),
{
    if a.unicode_len() != b.unicode_len() {
        return false;
    }
    assert(a@.take(b@.len() as int) =~= a@);
    has_prefix(a, b)
}

/// Reads the number that `text` holds between its characters `from` and
/// `to`, if that part is a number of at most `max`.
pub fn read_number(text: &str, from: usize, to: usize, max: u64) -> (value: Option<u64>)
    ensures
        from <= to <= text@.len() ==> (match number(
            text@.subrange(from as int, to as int),
            max as nat,
        ) {
            Some(n) => value == Some(n as u64),
            None => value is None,
        }),
        !(from <= to <= text@.len()) ==> value is None,
{
    let n = text.unicode_len();
    if from > to || to > n {
        return None;
    }
    let ghost part = text@.subrange(from as int, to as int);
    let mut i: usize = from;
    if i < to && text.get_char(i) == '+' {
        assert(part[0] == '+');
        i += 1;
    }
    let ghost digits = unsigned_part(part);
    let start = i;
    assert(digits =~= text@.subrange(start as int, to as int));
    if i == to {
        return None;
    }
    let mut value: u64 = 0;
    assert(digits.take(0) =~= Seq::<char>::empty());
    while i < to
        invariant
            start <= i <= to,
            to <= text@.len(),
            from <= to,
            digits == text@.subrange(start as int, to as int),
            digits == unsigned_part(text@.subrange(from as int, to as int)),
            all_digits(digits.take(i - start)),
            value == digits_value(digits.take(i - start)),
            value <= max,
        decreases to - i,
    {
        let c = text.get_char(i);
        assert(c == digits[i - start]);
        if !('0' <= c && c <= '9') {
            assert(!is_digit(digits[i - start]));
            return None;
        }
        let d: u64 = (c as u32 - '0' as u32) as u64;
        proof {
            assert(digits.take(i - start + 1).drop_last() =~= digits.take(i - start));
            assert(digits.take(i - start + 1).last() == c);
            assert(digits_value(digits.take(i - start + 1)) == value * 10 + d);
            assert forall|k: int| 0 <= k < i - start + 1 implies is_digit(
                #[trigger] digits.take(i - start + 1)[k],
            ) by {
                if k < i - start {
                    assert(digits.take(i - start)[k] == digits[k]);
                }
            }
        }
        if d > max || value > (max - d) / 10 {
            proof {
                lemma_value_grows(digits, i - start + 1);
            }
            return None;
        }
        value = value * 10 + d;
        i += 1;
    }
    assert(digits.take(i - start) =~= digits);
    Some(value)
}

} // verus!
