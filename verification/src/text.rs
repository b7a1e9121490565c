//! Character-level text operations with exact contracts: comparing, replacing
//! and rendering numbers. Everything here is stated over `Seq<char>`, the view
//! of `str` and `String`.

use vstd::prelude::*;

verus! {

broadcast use vstd::string::group_string_axioms;

/// `text` with every occurrence of `pattern` exchanged for `replacement`.
///
/// Occurrences are found from the left and never overlap: once a match is
/// replaced, the search goes on behind it, and the replacement itself is not
/// searched again. An empty pattern occurs nowhere.
pub open spec fn replaced(text: Seq<char>, pattern: Seq<char>, replacement: Seq<char>) -> Seq<char>
    decreases text.len(),
{
    if pattern.len() == 0 || text.len() < pattern.len() {
        text
    } else if text.take(pattern.len() as int) == pattern {
        replacement + replaced(text.skip(pattern.len() as int), pattern, replacement)
    } else {
        seq![text[0]] + replaced(text.skip(1), pattern, replacement)
    }
}

/// Whether `pattern` occurs in `text` at index `at`.
pub open spec fn occurs_at(text: Seq<char>, pattern: Seq<char>, at: int) -> bool {
    &&& 0 <= at
    &&& at + pattern.len() <= text.len()
    &&& text.subrange(at, at + pattern.len()) == pattern
}

/// Whether `pattern` occurs anywhere in `text`.
pub open spec fn contains(text: Seq<char>, pattern: Seq<char>) -> bool {
    exists|at: int| occurs_at(text, pattern, at)
}

/// The characters of `text`, in order.
pub fn chars_of(text: &str) -> (chars: Vec<char>)
    ensures
        chars@ == text@,
{
    let mut chars: Vec<char> = Vec::new();
    for c in it: text.chars()
        invariant
            it.seq() == text@,
            chars@ == text@.take(it.index() as int),
    {
        chars.push(c);
    }
    chars
}

/// Whether two texts hold the same characters.
pub fn same_text(left: &str, right: &str) -> (same: bool)
    ensures
        same == (left@ == right@),
{
    let a = chars_of(left);
    let b = chars_of(right);
    if a.len() != b.len() {
        return false;
    }
    let mut i: usize = 0;
    while i < a.len()
        invariant
            i <= a.len(),
            a.len() == b.len(),
            a@ == left@,
            b@ == right@,
            a@.take(i as int) == b@.take(i as int),
        decreases a.len() - i,
    {
        if a[i] != b[i] {
            assert(left@[i as int] != right@[i as int]);
            return false;
        }
        assert(a@.take(i + 1) == a@.take(i as int).push(a@[i as int]));
        assert(b@.take(i + 1) == b@.take(i as int).push(b@[i as int]));
        i += 1;
    }
    assert(a@ == a@.take(a.len() as int));
    assert(b@ == b@.take(b.len() as int));
    true
}

/// Whether `pattern` occurs in `text` at index `at`.
fn matches_at(text: &Vec<char>, at: usize, pattern: &Vec<char>) -> (found: bool)
    requires
        at + pattern.len() <= text.len(),
    ensures
        found == occurs_at(text@, pattern@, at as int),
{
    let ghost window = text@.subrange(at as int, at + pattern.len());
    let mut k: usize = 0;
    while k < pattern.len()
        invariant
            k <= pattern.len(),
            at + pattern.len() <= text.len(),
            window == text@.subrange(at as int, at + pattern.len()),
            window.take(k as int) == pattern@.take(k as int),
        decreases pattern.len() - k,
    {
        if text[at + k] != pattern[k] {
            assert(window[k as int] != pattern@[k as int]);
            return false;
        }
        assert(window.take(k + 1) == window.take(k as int).push(window[k as int]));
        assert(pattern@.take(k + 1) == pattern@.take(k as int).push(pattern@[k as int]));
        k += 1;
    }
    assert(window == window.take(pattern.len() as int));
    assert(pattern@ == pattern@.take(pattern.len() as int));
    true
}

/// Unfolds `replaced` on the tail of `text` that starts at `at`.
proof fn lemma_replaced_step(text: Seq<char>, pattern: Seq<char>, replacement: Seq<char>, at: int)
    requires
        0 <= at < text.len(),
        pattern.len() > 0,
    ensures
        occurs_at(text, pattern, at) ==> replaced(text.skip(at), pattern, replacement)
            == replacement + replaced(text.skip(at + pattern.len()), pattern, replacement),
        !occurs_at(text, pattern, at) ==> replaced(text.skip(at), pattern, replacement)
            == seq![text[at]] + replaced(text.skip(at + 1), pattern, replacement),
{
    let tail = text.skip(at);
    let n = pattern.len() as int;
    if at + n <= text.len() {
        assert(tail.take(n) == text.subrange(at, at + n));
        assert(tail.skip(n) == text.skip(at + n));
    }
    assert(tail.skip(1) == text.skip(at + 1));
    if tail.len() < n {
        // Too short for a match here, and so is everything behind it.
        assert(replaced(tail, pattern, replacement) == tail);
        assert(replaced(tail.skip(1), pattern, replacement) == tail.skip(1));
        assert(tail == seq![text[at]] + tail.skip(1));
    }
}

/// `text` with every occurrence of `pattern` exchanged for `replacement`,
/// matches taken from the left without overlap. An empty pattern leaves the
/// text as it is.
pub fn replace_all(text: &str, pattern: &str, replacement: &str) -> (out: String)
    ensures
        out@ == replaced(text@, pattern@, replacement@),
{
    let chars = chars_of(text);
    let wanted = chars_of(pattern);
    if wanted.len() == 0 || wanted.len() > chars.len() {
        return text.to_owned();
    }
    let ghost full = replaced(text@, pattern@, replacement@);
    let last: usize = chars.len() - wanted.len();
    let mut out = String::new();
    let mut copied: usize = 0;
    let mut at: usize = 0;
    assert(text@.skip(0) == text@);
    while at <= last
        invariant
            chars@ == text@,
            wanted@ == pattern@,
            wanted.len() > 0,
            last + wanted.len() == chars.len(),
            copied <= at <= chars.len(),
            full == replaced(text@, pattern@, replacement@),
            full == out@ + text@.subrange(copied as int, at as int) + replaced(
                text@.skip(at as int),
                pattern@,
                replacement@,
            ),
        decreases chars.len() - at,
    {
        proof {
            lemma_replaced_step(text@, pattern@, replacement@, at as int);
        }
        if matches_at(&chars, at, &wanted) {
            out.append(text.substring_char(copied, at));
            out.append(replacement);
            at += wanted.len();
            copied = at;
            assert(text@.subrange(copied as int, at as int) == Seq::<char>::empty());
        } else {
            assert(text@.subrange(copied as int, at + 1) == text@.subrange(
                copied as int,
                at as int,
            ) + seq![text@[at as int]]);
            at += 1;
        }
    }
    assert(replaced(text@.skip(at as int), pattern@, replacement@) == text@.skip(at as int));
    assert(text@.subrange(copied as int, at as int) + text@.skip(at as int) == text@.subrange(
        copied as int,
        chars.len() as int,
    ));
    out.append(text.substring_char(copied, chars.len()));
    out
}

/// The character that writes the digit `d`; `'0'` outside of 0 to 9.
pub open spec fn digit_char(d: int) -> char {
    if d == 1 {
        '1'
    } else if d == 2 {
        '2'
    } else if d == 3 {
        '3'
    } else if d == 4 {
        '4'
    } else if d == 5 {
        '5'
    } else if d == 6 {
        '6'
    } else if d == 7 {
        '7'
    } else if d == 8 {
        '8'
    } else if d == 9 {
        '9'
    } else {
        '0'
    }
}

/// The digit that `c` writes; 0 for every other character.
pub open spec fn digit_value(c: char) -> int {
    if c == '1' {
        1
    } else if c == '2' {
        2
    } else if c == '3' {
        3
    } else if c == '4' {
        4
    } else if c == '5' {
        5
    } else if c == '6' {
        6
    } else if c == '7' {
        7
    } else if c == '8' {
        8
    } else if c == '9' {
        9
    } else {
        0
    }
}

/// Whether `c` is one of the ten decimal digits.
pub open spec fn is_digit(c: char) -> bool {
    c == digit_char(digit_value(c))
}

/// `n` in base 10, most significant digit first.
pub open spec fn decimal(n: nat) -> Seq<char>
    decreases n,
{
    if n < 10 {
        seq![digit_char(n as int)]
    } else {
        decimal(n / 10).push(digit_char((n % 10) as int))
    }
}

/// The number that a run of decimal digits writes.
pub open spec fn decimal_value(digits: Seq<char>) -> nat
    decreases digits.len(),
{
    if digits.len() == 0 {
        0
    } else {
        decimal_value(digits.drop_last()) * 10 + digit_value(digits.last()) as nat
    }
}

/// How a boolean is written: `true` or `false`.
pub open spec fn flag(value: bool) -> Seq<char> {
    if value {
        seq!['t', 'r', 'u', 'e']
    } else {
        seq!['f', 'a', 'l', 's', 'e']
    }
}

/// The decimal text of a number is canonical: it is not empty, holds digits
/// only, starts with `0` for zero alone, and reads back as the number.
pub proof fn lemma_decimal_canonical(n: nat)
    ensures
        decimal(n).len() >= 1,
        forall|i: int| 0 <= i < decimal(n).len() ==> is_digit(#[trigger] decimal(n)[i]),
        decimal(n)[0] == '0' <==> n == 0,
        n == 0 ==> decimal(n) == seq!['0'],
        decimal_value(decimal(n)) == n,
    decreases n,
{
    if n < 10 {
        assert(decimal(n).drop_last() == Seq::<char>::empty());
        assert(decimal_value(decimal(n).drop_last()) == 0);
    } else {
        lemma_decimal_canonical(n / 10);
        let head = decimal(n / 10);
        let last = digit_char((n % 10) as int);
        assert(decimal(n) == head.push(last));
        assert(head.push(last).drop_last() == head);
        assert(head.push(last)[0] == head[0]);
        assert forall|i: int| 0 <= i < decimal(n).len() implies is_digit(
            #[trigger] decimal(n)[i],
        ) by {
            if i < head.len() {
                assert(decimal(n)[i] == head[i]);
            }
        }
    }
}

/// The text of one decimal digit.
fn digit_text(d: u64) -> (text: &'static str)
    requires
        d < 10,
    ensures
        text@ == seq![digit_char(d as int)],
{
    proof {
        reveal_strlit("0");
        reveal_strlit("1");
        reveal_strlit("2");
        reveal_strlit("3");
        reveal_strlit("4");
        reveal_strlit("5");
        reveal_strlit("6");
        reveal_strlit("7");
        reveal_strlit("8");
        reveal_strlit("9");
    }
    let text = if d == 0 {
        "0"
    } else if d == 1 {
        "1"
    } else if d == 2 {
        "2"
    } else if d == 3 {
        "3"
    } else if d == 4 {
        "4"
    } else if d == 5 {
        "5"
    } else if d == 6 {
        "6"
    } else if d == 7 {
        "7"
    } else if d == 8 {
        "8"
    } else {
        "9"
    };
    assert(text@ =~= seq![digit_char(d as int)]);
    text
}

/// `n` written in base 10 without sign, padding or leading zeros.
pub fn decimal_text(n: u64) -> (text: String)
    ensures
        text@ == decimal(n as nat),
    decreases n,
{
    if n < 10 {
        digit_text(n).to_owned()
    } else {
        let mut text = decimal_text(n / 10);
        text.append(digit_text(n % 10));
        text
    }
}

/// `true` or `false`.
pub fn flag_text(value: bool) -> (text: &'static str)
    ensures
        text@ == flag(value),
{
    proof {
        reveal_strlit("true");
        reveal_strlit("false");
    }
    let text = if value {
        "true"
    } else {
        "false"
    };
    assert(text@ =~= flag(value));
    text
}

/// Exchanging a pattern for itself changes nothing.
pub proof fn lemma_replaced_by_itself(text: Seq<char>, pattern: Seq<char>)
    ensures
        replaced(text, pattern, pattern) == text,
    decreases text.len(),
{
    if pattern.len() == 0 || text.len() < pattern.len() {
    } else if text.take(pattern.len() as int) == pattern {
        lemma_replaced_by_itself(text.skip(pattern.len() as int), pattern);
        assert(text.take(pattern.len() as int) + text.skip(pattern.len() as int) == text);
    } else {
        lemma_replaced_by_itself(text.skip(1), pattern);
        assert(seq![text[0]] + text.skip(1) == text);
    }
}

/// A text in which the pattern does not occur stays as it is.
pub proof fn lemma_replaced_without_match(
    text: Seq<char>,
    pattern: Seq<char>,
    replacement: Seq<char>,
)
    requires
        !contains(text, pattern),
    ensures
        replaced(text, pattern, replacement) == text,
    decreases text.len(),
{
    if pattern.len() == 0 || text.len() < pattern.len() {
    } else {
        assert(!occurs_at(text, pattern, 0));
        assert(text.subrange(0, pattern.len() as int) == text.take(pattern.len() as int));
        let rest = text.skip(1);
        assert forall|at: int| !occurs_at(rest, pattern, at) by {
            if occurs_at(rest, pattern, at) {
                assert(rest.subrange(at, at + pattern.len()) == text.subrange(
                    at + 1,
                    at + 1 + pattern.len(),
                ));
                assert(occurs_at(text, pattern, at + 1));
            }
        }
        lemma_replaced_without_match(rest, pattern, replacement);
        assert(seq![text[0]] + rest == text);
    }
}

/// Where a pattern occurs, the text holds the pattern's characters.
pub proof fn lemma_occurrence_chars(text: Seq<char>, pattern: Seq<char>, at: int)
    requires
        occurs_at(text, pattern, at),
    ensures
        forall|t: int| 0 <= t < pattern.len() ==> #[trigger] text[at + t] == pattern[t],
{
    assert forall|t: int| 0 <= t < pattern.len() implies #[trigger] text[at + t] == pattern[t] by {
        assert(text.subrange(at, at + pattern.len())[t] == text[at + t]);
    }
}

/// A pattern that occurs in a text once, and is exchanged there: in front of
/// the occurrence and behind it the text stays as it is.
pub proof fn lemma_replaced_single(
    front: Seq<char>,
    pattern: Seq<char>,
    back: Seq<char>,
    replacement: Seq<char>,
)
    requires
        pattern.len() > 0,
        forall|at: int| 0 <= at < front.len() ==> !occurs_at(front + pattern + back, pattern, at),
        !contains(back, pattern),
    ensures
        replaced(front + pattern + back, pattern, replacement) == front + replacement + back,
    decreases front.len(),
{
    let text = front + pattern + back;
    let n = pattern.len() as int;
    if front.len() == 0 {
        assert(text.take(n) =~= pattern);
        assert(text.skip(n) =~= back);
        lemma_replaced_without_match(back, pattern, replacement);
        assert(replacement + back =~= front + replacement + back);
    } else {
        assert(!occurs_at(text, pattern, 0));
        assert(text.take(n) == text.subrange(0, n));
        let rest = front.skip(1);
        assert(text.skip(1) =~= rest + pattern + back);
        assert forall|at: int| 0 <= at < rest.len() implies !occurs_at(
            rest + pattern + back,
            pattern,
            at,
        ) by {
            if occurs_at(rest + pattern + back, pattern, at) {
                assert(text.subrange(at + 1, at + 1 + n) =~= (rest + pattern + back).subrange(
                    at,
                    at + n,
                ));
                assert(occurs_at(text, pattern, at + 1));
            }
        }
        lemma_replaced_single(rest, pattern, back, replacement);
        assert(seq![text[0]] + (rest + replacement + back) =~= front + replacement + back);
    }
}

} // verus!
