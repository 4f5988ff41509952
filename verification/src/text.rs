//! Reading and writing short pieces of text.

use vstd::prelude::*;

verus! {

/// A decimal digit.
pub open spec fn is_digit(c: char) -> bool {
    '0' <= c && c <= '9'
}

/// Every character of `s` is a decimal digit.
pub open spec fn all_digits(s: Seq<char>) -> bool {
    forall|i: int| 0 <= i < s.len() ==> is_digit(#[trigger] s[i])
}

/// The number that a row of decimal digits stands for, the most significant one first.
pub open spec fn decimal_value(s: Seq<char>) -> nat
    decreases s.len(),
{
    if s.len() == 0 {
        0
    } else {
        10 * decimal_value(s.drop_last()) + (s.last() as nat - '0' as nat) as nat
    }
}

/// `s` without the plus sign that it may start with.
pub open spec fn without_plus(s: Seq<char>) -> Seq<char> {
    if s.len() > 0 && s[0] == '+' {
        s.skip(1)
    } else {
        s
    }
}

/// The number that `s` spells in decimal, with an optional plus sign in front: `None` if there
/// are no digits, if there is anything but digits, or if the number does not fit.
pub open spec fn parsed_u32(s: Seq<char>) -> Option<u32> {
    let digits = without_plus(s);
    if digits.len() > 0 && all_digits(digits) && decimal_value(digits) <= u32::MAX {
        Some(decimal_value(digits) as u32)
    } else {
        None
    }
}

/// More digits never make a smaller number.
proof fn lemma_prefix_value(s: Seq<char>, n: int)
    requires
        0 <= n <= s.len(),
        all_digits(s),
    ensures
        decimal_value(s.take(n)) <= decimal_value(s),
    decreases s.len(),
{
    if n < s.len() {
        lemma_prefix_value(s.drop_last(), n);
        assert(s.drop_last().take(n) =~= s.take(n));
        assert(is_digit(s[s.len() - 1]));
    } else {
        assert(s.take(n) =~= s);
    }
}

/// The characters of `s`, in order.
fn characters(s: &str) -> (r: Vec<char>)
    ensures
        r@ == s@,
{
    let mut chars: Vec<char> = Vec::new();
    for c in it: s.chars()
        invariant
            it.seq() == s@,
            chars@ == s@.take(it.index()),
    {
        chars.push(c);
    }
    chars
}

/// Reads a number as `str::parse::<u32>` does.
pub fn parse_u32(s: &str) -> (r: Option<u32>)
    ensures
        r == parsed_u32(s@),
{
    let chars = characters(s);
    let start: usize = if chars.len() > 0 && chars[0] == '+' {
        1
    } else {
        0
    };
    let ghost digits = without_plus(s@);
    assert(digits =~= s@.skip(start as int));
    if start == chars.len() {
        return None;
    }
    let mut value: u32 = 0;
    let mut i: usize = start;
    assert(digits.take(0) =~= Seq::<char>::empty());
    while i < chars.len()
        invariant
            chars@ == s@,
            digits == without_plus(s@),
            digits == s@.skip(start as int),
            start <= i <= chars.len(),
            start < chars.len(),
            all_digits(digits.take(i - start)),
            value == decimal_value(digits.take(i - start)),
        decreases chars.len() - i,
    {
        let c = chars[i];
        let ghost read = digits.take(i - start);
        let ghost longer = digits.take(i + 1 - start);
        assert(digits[i - start] == c);
        if c < '0' || c > '9' {
            return None;
        }
        assert(longer.drop_last() =~= read);
        assert(longer.last() == c);
        assert forall|j: int| 0 <= j < longer.len() implies is_digit(#[trigger] longer[j]) by {
            if j < read.len() {
                assert(longer[j] == read[j]);
            }
        }
        let digit: u32 = c as u32 - '0' as u32;
        if value > (u32::MAX - digit) / 10 {
            proof {
                if all_digits(digits) {
                    lemma_prefix_value(digits, i + 1 - start);
                }
            }
            return None;
        }
        value = value * 10 + digit;
        i = i + 1;
    }
    assert(digits.take(digits.len() as int) =~= digits);
    Some(value)
}

/// `end` is how `s` ends.
pub open spec fn has_ending(s: Seq<char>, end: Seq<char>) -> bool {
    end.len() <= s.len() && s.skip(s.len() - end.len()) == end
}

/// Whether `s` ends with `end`, as `str::ends_with` tells.
pub fn ends_with(s: &str, end: &str) -> (r: bool)
    ensures
        r == has_ending(s@, end@),
{
    let chars = characters(s);
    let tail = characters(end);
    if tail.len() > chars.len() {
        return false;
    }
    let start: usize = chars.len() - tail.len();
    let mut i: usize = 0;
    while i < tail.len()
        invariant
            chars@ == s@,
            tail@ == end@,
            start + tail.len() == chars.len(),
            i <= tail.len(),
            forall|j: int| 0 <= j < i ==> s@.skip(start as int)[j] == #[trigger] end@[j],
        decreases tail.len() - i,
    {
        if chars[start + i] != tail[i] {
            assert(s@.skip(start as int)[i as int] != end@[i as int]);
            return false;
        }
        i = i + 1;
    }
    assert(s@.skip(start as int) =~= end@);
    true
}

/// Whether two pieces of text are the same.
pub fn same_text(a: &str, b: &str) -> (r: bool)
    ensures
        r == (a@ == b@),
{
    let left = characters(a);
    let right = characters(b);
    if left.len() != right.len() {
        return false;
    }
    let mut i: usize = 0;
    while i < left.len()
        invariant
            left@ == a@,
            right@ == b@,
            left.len() == right.len(),
            i <= left.len(),
            forall|j: int| 0 <= j < i ==> a@[j] == #[trigger] b@[j],
        decreases left.len() - i,
    {
        if left[i] != right[i] {
            return false;
        }
        i = i + 1;
    }
    assert(a@ =~= b@);
    true
}

/// The views of a row of strings.
pub open spec fn views(s: Seq<String>) -> Seq<Seq<char>> {
    s.map_values(|t: String| t@)
}

/// The pieces in order, with `separator` between each two of them.
pub open spec fn joined(pieces: Seq<Seq<char>>, separator: Seq<char>) -> Seq<char>
    decreases pieces.len(),
{
    if pieces.len() == 0 {
        Seq::empty()
    } else if pieces.len() == 1 {
        pieces[0]
    } else {
        joined(pieces.drop_last(), separator) + separator + pieces.last()
    }
}

/// Joins strings as `[String]::join` does.
pub fn join(pieces: &Vec<String>, separator: &str) -> (r: String)
    ensures
        r@ == joined(views(pieces@), separator@),
{
    let mut out = String::new();
    let mut i: usize = 0;
    while i < pieces.len()
        invariant
            i <= pieces.len(),
            out@ == joined(views(pieces@).take(i as int), separator@),
        decreases pieces.len() - i,
    {
        let ghost longer = views(pieces@).take(i + 1);
        assert(longer.drop_last() =~= views(pieces@).take(i as int));
        assert(longer.last() == pieces@[i as int]@);
        if i > 0 {
            out.append(separator);
        }
        out.append(pieces[i].as_str());
        i = i + 1;
    }
    assert(views(pieces@).take(pieces@.len() as int) =~= views(pieces@));
    out
}

/// None of the pieces holds the character.
pub open spec fn all_free_of(pieces: Seq<Seq<char>>, c: char) -> bool {
    forall|i: int| 0 <= i < pieces.len() ==> !(#[trigger] pieces[i]).contains(c)
}

/// What has been joined with a character can be told apart again, as long as there is a piece and
/// none of them holds the character.
pub proof fn joined_is_unambiguous(pieces: Seq<Seq<char>>, others: Seq<Seq<char>>, c: char)
    requires
        pieces.len() > 0,
        others.len() > 0,
        all_free_of(pieces, c),
        all_free_of(others, c),
        joined(pieces, seq![c]) == joined(others, seq![c]),
    ensures
        pieces == others,
    decreases pieces.len(),
{
    let text = joined(pieces, seq![c]);
    let last = pieces.last();
    let other = others.last();
    let start = text.len() - last.len();
    let other_start = text.len() - other.len();
    assert(!pieces[pieces.len() - 1].contains(c));
    assert(!others[others.len() - 1].contains(c));
    assert(text.skip(start) =~= last);
    assert(text.skip(other_start) =~= other);
    if pieces.len() > 1 {
        assert(text[start - 1] == c);
        if other_start < start {
            assert(other[start - 1 - other_start] == c);
        }
    }
    if others.len() > 1 {
        assert(text[other_start - 1] == c);
        if start < other_start {
            assert(last[other_start - 1 - start] == c);
        }
    }
    if pieces.len() > 1 && others.len() > 1 {
        let before = pieces.drop_last();
        let others_before = others.drop_last();
        assert(joined(before, seq![c]) =~= text.take(start - 1));
        assert(joined(others_before, seq![c]) =~= text.take(start - 1));
        assert forall|i: int| 0 <= i < before.len() implies !(#[trigger] before[i]).contains(c) by {
            assert(before[i] == pieces[i]);
        }
        assert forall|i: int| 0 <= i < others_before.len() implies !(
        #[trigger] others_before[i]).contains(c) by {
            assert(others_before[i] == others[i]);
        }
        joined_is_unambiguous(before, others_before, c);
        assert(pieces =~= before.push(last));
        assert(others =~= others_before.push(other));
    } else {
        assert(pieces =~= seq![last]);
        assert(others =~= seq![other]);
    }
}

/// A number is read digit by digit. One more character makes ten times the number and its own
/// value out of it, as long as the character is a digit and the result fits in 32 bits. A number
/// starts with its first digit, or with one plus sign in front of that.
pub proof fn numbers_are_read_digit_by_digit(s: Seq<char>, c: char)
    ensures
        parsed_u32(Seq::<char>::empty()) is None,
        !(48 <= c as int <= 57) ==> parsed_u32(s.push(c)) is None,
        48 <= c as int <= 57 && (s.len() == 0 || s == seq!['+']) ==> (parsed_u32(
            s.push(c),
        ) matches Some(n) && n as int == c as int - 48),
        48 <= c as int <= 57 && s.len() > 0 && s != seq!['+'] ==> match (
            parsed_u32(s),
            parsed_u32(s.push(c)),
        ) {
            (Some(n), Some(longer)) => longer as int == 10 * (n as int) + (c as int - 48),
            (Some(n), None) => 10 * (n as int) + (c as int - 48) > 0xffff_ffff,
            (None, longer) => longer is None,
        },
{
    let longer = s.push(c);
    let digits = without_plus(longer);
    if s.len() == 0 && c == '+' {
        assert(digits.len() == 0);
    } else {
        assert(digits =~= without_plus(s).push(c));
        assert(digits.last() == c);
        assert(digits.drop_last() =~= without_plus(s));
        assert(is_digit(c) == (48 <= c as int <= 57));
        if is_digit(c) {
            if all_digits(without_plus(s)) {
                assert forall|i: int| 0 <= i < digits.len() implies is_digit(
                    #[trigger] digits[i],
                ) by {
                    if i < without_plus(s).len() {
                        assert(digits[i] == without_plus(s)[i]);
                    }
                }
            } else {
                let i = choose|i: int|
                    0 <= i < without_plus(s).len() && !is_digit(#[trigger] without_plus(s)[i]);
                assert(!is_digit(digits[i]));
            }
            if s.len() == 1 && s[0] == '+' {
                assert(s =~= seq!['+']);
            }
        } else {
            assert(!is_digit(digits[digits.len() - 1]));
        }
    }
}

/// A text ends with another exactly if it is made of something and then the other.
pub proof fn an_ending_has_something_before_it(s: Seq<char>, end: Seq<char>)
    ensures
        has_ending(s, end) <==> exists|start: Seq<char>| #[trigger] (start + end) == s,
{
    if has_ending(s, end) {
        assert(s.take(s.len() - end.len()) + end =~= s);
    }
    if exists|start: Seq<char>| #[trigger] (start + end) == s {
        let start = choose|start: Seq<char>| #[trigger] (start + end) == s;
        assert(s.skip(s.len() - end.len()) =~= end);
    }
}

/// Nothing joined is nothing, one piece joined is that piece, and of two rows of pieces it makes
/// no difference whether they are joined at once, or each first and then the two results.
pub proof fn joined_piece_by_piece(
    first: Seq<Seq<char>>,
    second: Seq<Seq<char>>,
    piece: Seq<char>,
    separator: Seq<char>,
)
    ensures
        joined(Seq::<Seq<char>>::empty(), separator) == Seq::<char>::empty(),
        joined(seq![piece], separator) == piece,
        first.len() > 0 && second.len() > 0 ==> joined(first + second, separator) == joined(
            first,
            separator,
        ) + separator + joined(second, separator),
    decreases second.len(),
{
    if first.len() > 0 && second.len() > 0 {
        let all = first + second;
        assert(all.drop_last() =~= first + second.drop_last());
        assert(all.last() == second.last());
        if second.len() == 1 {
            assert(all.drop_last() =~= first);
        } else {
            joined_piece_by_piece(first, second.drop_last(), piece, separator);
        }
        assert(joined(all, separator) =~= joined(first, separator) + separator + joined(
            second,
            separator,
        ));
    }
}

/// The views of strings are those of each of them, in order.
pub proof fn views_are_in_order(s: Seq<String>)
    ensures
        views(s).len() == s.len(),
        forall|i: int| 0 <= i < s.len() ==> #[trigger] views(s)[i] == s[i]@,
{
}

} // verus!
