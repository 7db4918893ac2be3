//! Text primitives shared by the record model and the command language:
//! comparison of identifiers and the splitting of dotted paths.

use vstd::prelude::*;
use vstd::utf8::{encode_utf8, encode_utf8_decode_utf8};

verus! {

/// Whether `a` and `b` hold the same characters.
pub fn same_text(a: &str, b: &str) -> (same: bool)
    ensures
        same == (a@ == b@),
{
    let x = a.as_bytes();
    let y = b.as_bytes();
    proof {
        encode_utf8_decode_utf8(a@);
        encode_utf8_decode_utf8(b@);
    }
    if x.len() != y.len() {
        return false;
    }
    let n = x.len();
    let mut i: usize = 0;
    while i < n
        invariant
            i <= n,
            n == x@.len(),
            n == y@.len(),
            x@ == encode_utf8(a@),
            y@ == encode_utf8(b@),
            forall|k: int| 0 <= k < i ==> x@[k] == y@[k],
        decreases n - i,
    {
        if x[i] != y[i] {
            return false;
        }
        i += 1;
    }
    assert(x@ =~= y@);
    true
}

/// A copy of `text` that is equal to it.
pub fn copy_optional_text(text: &Option<String>) -> (copy: Option<String>)
    ensures
        copy == *text,
{
    match text {
        Some(t) => Some(t.clone()),
        None => None,
    }
}

/// The characters of `a` followed by those of `b`.
pub fn join2(a: &str, b: &str) -> (joined: String)
    ensures
        joined@ == a@ + b@,
{
    let mut joined = String::from_str(a);
    joined.append(b);
    joined
}

/// The characters of `a`, `b` and `c` in that order.
pub fn join3(a: &str, b: &str, c: &str) -> (joined: String)
    ensures
        joined@ == a@ + b@ + c@,
{
    let mut joined = String::from_str(a);
    joined.append(b);
    joined.append(c);
    joined
}

/// Whether the first `mark` of `text` stands at place `i`.
pub open spec fn is_first(text: Seq<char>, mark: char, i: int) -> bool {
    &&& 0 <= i < text.len()
    &&& text[i] == mark
    &&& forall|j: int| 0 <= j < i ==> text[j] != mark
}

/// Whether `text` holds the character `mark`.
pub open spec fn has_mark(text: Seq<char>, mark: char) -> bool {
    exists|i: int| is_first(text, mark, i)
}

/// What stands before the first `mark` of `text`, or all of `text` where
/// it holds none.
pub open spec fn before_first(text: Seq<char>, mark: char) -> Seq<char> {
    if has_mark(text, mark) {
        text.take(choose|i: int| is_first(text, mark, i))
    } else {
        text
    }
}

/// `text` from its first `mark` on, that character included, or nothing
/// where it holds none.
pub open spec fn from_first(text: Seq<char>, mark: char) -> Seq<char> {
    if has_mark(text, mark) {
        text.skip(choose|i: int| is_first(text, mark, i))
    } else {
        Seq::<char>::empty()
    }
}

/// The first segment of the dotted path `text`: what stands before its
/// first separator, or all of it where it has none.
pub open spec fn first_segment(text: Seq<char>) -> Seq<char> {
    before_first(text, '.')
}

/// What follows the first segment of the dotted path `text`: the rest from
/// its first separator on, that separator included, or nothing where it has
/// none.
pub open spec fn after_first_segment(text: Seq<char>) -> Seq<char> {
    from_first(text, '.')
}

/// `text` without its first character; nothing where `text` is empty.
pub open spec fn without_first(text: Seq<char>) -> Seq<char> {
    if text.len() == 0 {
        text
    } else {
        text.skip(1)
    }
}

/// What follows the first character of `text`, where anything does.
pub open spec fn tail(text: Seq<char>) -> Option<Seq<char>> {
    if text.len() <= 1 {
        None
    } else {
        Some(text.skip(1))
    }
}

/// The first `mark` of a text stands at one place only.
pub proof fn lemma_first_is_unique(text: Seq<char>, mark: char, i: int)
    requires
        is_first(text, mark, i),
    ensures
        has_mark(text, mark),
        (choose|k: int| is_first(text, mark, k)) == i,
{
    let k = choose|k: int| is_first(text, mark, k);
}

/// A text without the character `mark` has no first one.
pub proof fn lemma_no_mark(text: Seq<char>, mark: char)
    requires
        forall|j: int| 0 <= j < text.len() ==> text[j] != mark,
    ensures
        !has_mark(text, mark),
{
    if has_mark(text, mark) {
        let k = choose|k: int| is_first(text, mark, k);
    }
}

/// Splits `text` at its first `mark` into what stands before it and the
/// rest, that character included.
pub fn split_at_first(text: &str, mark: char) -> (parts: (&str, &str))
    ensures
        parts.0@ == before_first(text@, mark),
        parts.1@ == from_first(text@, mark),
{
    let n = text.unicode_len();
    let mut i: usize = 0;
    while i < n
        invariant
            i <= n,
            n == text@.len(),
            forall|j: int| 0 <= j < i ==> text@[j] != mark,
        decreases n - i,
    {
        if text.get_char(i) == mark {
            proof {
                lemma_first_is_unique(text@, mark, i as int);
            }
            let first = text.substring_char(0, i);
            let rest = text.substring_char(i, n);
            return (first, rest);
        }
        i += 1;
    }
    let rest = text.substring_char(n, n);
    (text, rest)
}

/// Splits the dotted path `command` into its first segment and what follows
/// it, the separator included.
pub fn split_command(command: &str) -> (parts: (&str, &str))
    ensures
        parts.0@ == first_segment(command@),
        parts.1@ == after_first_segment(command@),
{
    split_at_first(command, '.')
}

/// `text` without its first character; nothing where `text` is empty.
pub fn skip_first(text: &str) -> (rest: String)
    ensures
        rest@ == without_first(text@),
{
    let n = text.unicode_len();
    if n == 0 {
        String::from_str(text)
    } else {
        let rest = text.substring_char(1, n);
        String::from_str(rest)
    }
}

/// The three parts of `text` between its two `mark`s, where it holds
/// exactly two.
pub open spec fn three_parts(text: Seq<char>, mark: char) -> Option<
    (Seq<char>, Seq<char>, Seq<char>),
> {
    let after_first = without_first(from_first(text, mark));
    let after_second = without_first(from_first(after_first, mark));
    if has_mark(text, mark) && has_mark(after_first, mark) && !has_mark(after_second, mark) {
        Some((before_first(text, mark), before_first(after_first, mark), after_second))
    } else {
        None
    }
}

/// Whether `text` holds the character `mark`.
pub fn holds_mark(text: &str, mark: char) -> (holds: bool)
    ensures
        holds == has_mark(text@, mark),
{
    let n = text.unicode_len();
    let mut i: usize = 0;
    while i < n
        invariant
            i <= n,
            n == text@.len(),
            forall|j: int| 0 <= j < i ==> text@[j] != mark,
        decreases n - i,
    {
        if text.get_char(i) == mark {
            proof {
                lemma_first_is_unique(text@, mark, i as int);
            }
            return true;
        }
        i += 1;
    }
    false
}

/// `text` without its first character, borrowed; nothing where `text` is
/// empty.
pub fn after_first_char(text: &str) -> (rest: &str)
    ensures
        rest@ == without_first(text@),
{
    let n = text.unicode_len();
    if n == 0 {
        text
    } else {
        let rest = text.substring_char(1, n);
        rest
    }
}

/// The three parts of `text` between its two `mark`s, where it holds
/// exactly two.
pub fn split_in_three(text: &str, mark: char) -> (parts: Option<(&str, &str, &str)>)
    ensures
        match parts {
            Some((a, b, c)) => three_parts(text@, mark) == Some((a@, b@, c@)),
            None => three_parts(text@, mark) is None,
        },
{
    if !holds_mark(text, mark) {
        return None;
    }
    let (first, rest) = split_at_first(text, mark);
    let after_first = after_first_char(rest);
    if !holds_mark(after_first, mark) {
        return None;
    }
    let (second, rest) = split_at_first(after_first, mark);
    let third = after_first_char(rest);
    if holds_mark(third, mark) {
        return None;
    }
    Some((first, second, third))
}

/// The digit `d` as text.
pub open spec fn digit_text(d: nat) -> Seq<char> {
    if d == 0 {
        "0"@
    } else if d == 1 {
        "1"@
    } else if d == 2 {
        "2"@
    } else if d == 3 {
        "3"@
    } else if d == 4 {
        "4"@
    } else if d == 5 {
        "5"@
    } else if d == 6 {
        "6"@
    } else if d == 7 {
        "7"@
    } else if d == 8 {
        "8"@
    } else {
        "9"@
    }
}

/// The number `n` in decimal digits, without leading zeros.
pub open spec fn decimal_text(n: nat) -> Seq<char>
    decreases n,
{
    if n < 10 {
        digit_text(n)
    } else {
        decimal_text(n / 10) + digit_text(n % 10)
    }
}

/// The number `n` in decimal digits, without leading zeros.
pub fn decimal(n: u32) -> (text: String)
    ensures
        text@ == decimal_text(n as nat),
    decreases n,
{
    let d = n % 10;
    let digit = if d == 0 {
        "0"
    } else if d == 1 {
        "1"
    } else if d == 2 {
        "2"
    } else if d == 3 {
        "3"
    } else if d == 4 {
        "4"
    } else if d == 5 {
        "5"
    } else if d == 6 {
        "6"
    } else if d == 7 {
        "7"
    } else if d == 8 {
        "8"
    } else {
        "9"
    };
    if n < 10 {
        String::from_str(digit)
    } else {
        let mut text = decimal(n / 10);
        text.append(digit);
        text
    }
}

} // verus!
