//! Text: the string operations that the rest of the library is stated over.

use vstd::prelude::*;

verus! {

/// `==` of `str`: the two hold the same characters.
pub assume_specification [ <str as PartialEq>::eq ](a: &str, b: &str) -> (r: bool)
    ensures
        r == (a@ == b@),
;

/// `str::trim`: what is left when the white space at both ends is removed.
pub assume_specification [ str::trim ](s: &str) -> (r: &str)
    ensures
        r@ == trimmed(s@),
;

/// The view of an optional string.
pub open spec fn opt_text(s: Option<&str>) -> Option<Seq<char>> {
    match s {
        Some(s) => Some(s@),
        None => None,
    }
}

/// The view of an optional owned string.
pub open spec fn opt_string(s: Option<String>) -> Option<Seq<char>> {
    match s {
        Some(s) => Some(s@),
        None => None,
    }
}

/// The views of a list of strings.
pub open spec fn texts(list: Seq<String>) -> Seq<Seq<char>> {
    list.map_values(|s: String| s@)
}

/// The characters with the Unicode property `White_Space`.
pub open spec fn is_white_space(c: char) -> bool {
    let n = c as u32;
    ||| 0x9 <= n <= 0xd
    ||| n == 0x20
    ||| n == 0x85
    ||| n == 0xa0
    ||| n == 0x1680
    ||| 0x2000 <= n <= 0x200a
    ||| n == 0x2028
    ||| n == 0x2029
    ||| n == 0x202f
    ||| n == 0x205f
    ||| n == 0x3000
}

/// `s` without the white space that it starts with.
pub open spec fn trimmed_start(s: Seq<char>) -> Seq<char>
    decreases s.len(),
{
    if s.len() > 0 && is_white_space(s.first()) {
        trimmed_start(s.drop_first())
    } else {
        s
    }
}

/// `s` without the white space that it ends with.
pub open spec fn trimmed_end(s: Seq<char>) -> Seq<char>
    decreases s.len(),
{
    if s.len() > 0 && is_white_space(s.last()) {
        trimmed_end(s.drop_last())
    } else {
        s
    }
}

/// `s` without white space at either end.
pub open spec fn trimmed(s: Seq<char>) -> Seq<char> {
    trimmed_end(trimmed_start(s))
}

/// What stands before and after the first `c` in `s`, where there is one.
pub open spec fn split_first(s: Seq<char>, c: char) -> Option<(Seq<char>, Seq<char>)>
    decreases s.len(),
{
    if s.len() == 0 {
        None
    } else if s.first() == c {
        Some((Seq::empty(), s.drop_first()))
    } else {
        match split_first(s.drop_first(), c) {
            Some((before, after)) => Some((seq![s.first()] + before, after)),
            None => None,
        }
    }
}

/// The parts in order, with `separator` between each two.
pub open spec fn joined(parts: Seq<Seq<char>>, separator: Seq<char>) -> Seq<char>
    decreases parts.len(),
{
    if parts.len() == 0 {
        Seq::empty()
    } else if parts.len() == 1 {
        parts[0]
    } else {
        joined(parts.drop_last(), separator) + separator + parts.last()
    }
}

/// The decimal digit of `d`.
pub open spec fn digit(d: nat) -> char {
    (48 + d) as char
}

/// `n` in decimal, without leading zeros.
pub open spec fn decimal(n: nat) -> Seq<char>
    decreases n,
{
    if n < 10 {
        seq![digit(n)]
    } else {
        decimal(n / 10).push(digit(n % 10))
    }
}

/// Whether `c` is a decimal digit.
pub open spec fn is_digit(c: char) -> bool {
    '0' <= c <= '9'
}

/// Whether a text holds digits only.
pub open spec fn all_digits(s: Seq<char>) -> bool {
    forall|i: int| 0 <= i < s.len() ==> is_digit(#[trigger] s[i])
}

/// The number that decimal digits stand for.
pub open spec fn digits_value(s: Seq<char>) -> nat
    decreases s.len(),
{
    if s.len() == 0 {
        0
    } else {
        digits_value(s.drop_last()) * 10 + (s.last() as u32 - 48) as nat
    }
}

/// `s` as an index: an optional `+` and then digits only, at least one, of a number that a
/// `usize` can hold.
pub open spec fn parsed_index(s: Seq<char>) -> Option<usize> {
    let digits = if s.len() > 0 && s.first() == '+' {
        s.drop_first()
    } else {
        s
    };
    if digits.len() > 0 && all_digits(digits) && digits_value(digits) <= usize::MAX {
        Some(digits_value(digits) as usize)
    } else {
        None
    }
}

/// Whether `a` comes before `b` in the order of their characters' code points.
pub open spec fn comes_before(a: Seq<char>, b: Seq<char>) -> bool
    decreases a.len(),
{
    if b.len() == 0 {
        false
    } else if a.len() == 0 {
        true
    } else if a.first() != b.first() {
        a.first() < b.first()
    } else {
        comes_before(a.drop_first(), b.drop_first())
    }
}

/// What `char::to_uppercase` maps a character to.
pub uninterp spec fn uppercase(c: char) -> Seq<char>;

/// Whether the two hold the same characters.
pub fn same_text(a: &str, b: &str) -> (r: bool)
    ensures
        r == (a@ == b@),
{
    *a == *b
}

/// The first `c` splits a text at its place.
proof fn lemma_split_first(s: Seq<char>, c: char, n: int)
    requires
        0 <= n <= s.len(),
        forall|i: int| 0 <= i < n ==> #[trigger] s[i] != c,
        n < s.len() ==> s[n] == c,
    ensures
        split_first(s, c) == (if n < s.len() {
            Some((s.take(n), s.skip(n + 1)))
        } else {
            None
        }),
    decreases s.len(),
{
    if n == 0 {
        if s.len() > 0 {
            assert(s.take(0) =~= Seq::empty());
            assert(s.skip(1) =~= s.drop_first());
        }
    } else {
        let rest = s.drop_first();
        assert(s[0] != c);
        assert forall|i: int| 0 <= i < n - 1 implies #[trigger] rest[i] != c by {
            assert(rest[i] == s[i + 1]);
        }
        lemma_split_first(rest, c, n - 1);
        if n < s.len() {
            assert(seq![s.first()] + rest.take(n - 1) =~= s.take(n));
            assert(rest.skip(n) =~= s.skip(n + 1));
        }
    }
}

/// The text before the first `c` and the text after it, or `None` where `c` does not occur.
pub fn split_once(s: &str, c: char) -> (r: Option<(&str, &str)>)
    ensures
        match r {
            Some((before, after)) => split_first(s@, c) == Some((before@, after@)),
            None => split_first(s@, c) is None,
        },
{
    let len: usize = s.unicode_len();
    let mut n: usize = 0;
    for found in iter: s.chars()
        invariant
            len == s@.len(),
            iter.seq() == s@,
            n == iter.index(),
            forall|i: int| 0 <= i < n ==> #[trigger] s@[i] != c,
    {
        if found == c {
            proof {
                lemma_split_first(s@, c, n as int);
            }
            let before: &str = s.substring_char(0, n);
            let after: &str = s.substring_char(n + 1, len);
            assert(before@ =~= s@.take(n as int));
            assert(after@ =~= s@.skip(n + 1));
            return Some((before, after));
        }
        n = n + 1;
    }
    proof {
        lemma_split_first(s@, c, s@.len() as int);
    }
    None
}

/// The text after `c`, or `None` where the text does not start with it.
pub fn strip_prefix(s: &str, c: char) -> (r: Option<&str>)
    ensures
        opt_text(r) == (if s@.len() > 0 && s@.first() == c {
            Some(s@.drop_first())
        } else {
            None::<Seq<char>>
        }),
{
    if s.is_empty() || s.get_char(0) != c {
        return None;
    }
    let rest: &str = s.substring_char(1, s.unicode_len());
    assert(rest@ =~= s@.drop_first());
    Some(rest)
}

/// `u64::to_string`: the number in decimal.
#[verifier::external_body]
pub(crate) fn decimal_text(n: u64) -> (r: String)
    ensures
        r@ == decimal(n as nat),
{
    n.to_string()
}

/// `str::parse` for `usize`: an optional `+` followed by digits only, `None` for anything else
/// and for a number that is too large.
#[verifier::external_body]
pub(crate) fn parse_index(s: &str) -> (r: Option<usize>)
    ensures
        r == parsed_index(s@),
{
    s.parse::<usize>().ok()
}

/// `<` of `str`: the order of the bytes, which is that of the code points.
#[verifier::external_body]
pub(crate) fn text_less(a: &str, b: &str) -> (r: bool)
    ensures
        r == comes_before(a@, b@),
{
    a < b
}

/// `char::to_uppercase`: an ASCII letter maps to the letter 32 code points below it; of other
/// characters only the name of the result is given.
#[verifier::external_body]
pub(crate) fn uppercase_text(c: char) -> (r: String)
    ensures
        r@ == uppercase(c),
        'a' <= c <= 'z' ==> r@ == seq![((c as u32 - 32) as u32) as char],
{
    c.to_uppercase().collect()
}

/// The parts in order, with `separator` between each two.
pub fn join(parts: &Vec<String>, separator: &str) -> (r: String)
    ensures
        r@ == joined(texts(parts@), separator@),
{
    let mut r: String = String::new();
    let mut i: usize = 0;
    while i < parts.len()
        invariant
            i <= parts.len(),
            r@ == joined(texts(parts@.take(i as int)), separator@),
        decreases parts.len() - i,
    {
        let ghost done = texts(parts@.take(i as int));
        let ghost more = texts(parts@.take(i + 1));
        assert(more.drop_last() =~= done);
        if i > 0 {
            r.append(separator);
        }
        r.append(parts[i].as_str());
        if i == 0 {
            assert(r@ =~= more[0]);
        }
        i = i + 1;
    }
    assert(parts@.take(i as int) =~= parts@);
    r
}

/// A copy of a list of strings.
pub fn copy_texts(list: &Vec<String>) -> (r: Vec<String>)
    ensures
        texts(r@) == texts(list@),
{
    let mut r: Vec<String> = Vec::new();
    let mut i: usize = 0;
    while i < list.len()
        invariant
            i <= list.len(),
            texts(r@) == texts(list@.take(i as int)),
        decreases list.len() - i,
    {
        r.push(list[i].clone());
        assert(texts(list@.take(i + 1)) =~= texts(list@.take(i as int)).push(list@[i as int]@));
        assert(texts(r@) =~= texts(list@.take(i + 1)));
        i = i + 1;
    }
    assert(list@.take(i as int) =~= list@);
    r
}

/// The text with its first character in upper case.
pub open spec fn title_cased(s: Seq<char>) -> Seq<char> {
    if s.len() == 0 {
        s
    } else {
        uppercase(s.first()) + s.drop_first()
    }
}

/// The text with its first character in upper case.
pub fn title_case(value: &str) -> (r: String)
    ensures
        r@ == title_cased(value@),
        value@.len() > 0 && 'a' <= value@[0] <= 'z' ==> r@ == seq![
            ((value@[0] as u32 - 32) as u32) as char,
        ] + value@.drop_first(),
{
    if value.is_empty() {
        return String::new();
    }
    let mut r: String = uppercase_text(value.get_char(0));
    r.append(value.substring_char(1, value.unicode_len()));
    assert(value@.subrange(1, value@.len() as int) =~= value@.drop_first());
    r
}

/// Digits of `decimal(n)` are digits, and there is at least one.
proof fn lemma_decimal_digits(n: nat)
    ensures
        decimal(n).len() > 0,
        forall|i: int| 0 <= i < decimal(n).len() ==> is_digit(#[trigger] decimal(n)[i]),
        digits_value(decimal(n)) == n,
    decreases n,
{
    reveal_with_fuel(digits_value, 2);
    if n >= 10 {
        lemma_decimal_digits(n / 10);
        assert(decimal(n).drop_last() =~= decimal(n / 10));
    } else {
        assert(decimal(n).drop_last() =~= Seq::<char>::empty());
    }
}

/// An index written in decimal reads back as itself.
pub proof fn decimal_reads_back(n: usize)
    ensures
        parsed_index(decimal(n as nat)) == Some(n),
{
    lemma_decimal_digits(n as nat);
    assert(is_digit(decimal(n as nat)[0]));
}

/// Different numbers have different decimal texts.
pub proof fn decimal_is_injective(a: nat, b: nat)
    requires
        decimal(a) == decimal(b),
    ensures
        a == b,
{
    lemma_decimal_digits(a);
    lemma_decimal_digits(b);
}

/// No text comes before itself.
pub proof fn lemma_before_irreflexive(a: Seq<char>)
    ensures
        !comes_before(a, a),
    decreases a.len(),
{
    if a.len() > 0 {
        lemma_before_irreflexive(a.drop_first());
    }
}

/// What comes before something comes before all that follows it.
pub proof fn lemma_before_transitive(a: Seq<char>, b: Seq<char>, c: Seq<char>)
    requires
        comes_before(a, b),
        comes_before(b, c),
    ensures
        comes_before(a, c),
    decreases a.len(),
{
    if a.len() > 0 && a.first() == b.first() && b.first() == c.first() {
        lemma_before_transitive(a.drop_first(), b.drop_first(), c.drop_first());
    }
}

/// Of two texts that differ one comes before the other.
pub proof fn lemma_before_total(a: Seq<char>, b: Seq<char>)
    ensures
        a == b || comes_before(a, b) || comes_before(b, a),
    decreases a.len(),
{
    if a.len() == 0 {
        if b.len() == 0 {
            assert(a =~= b);
        }
    } else if b.len() > 0 && a.first() == b.first() {
        lemma_before_total(a.drop_first(), b.drop_first());
        if a.drop_first() == b.drop_first() {
            assert(a =~= seq![a.first()] + a.drop_first());
            assert(b =~= seq![b.first()] + b.drop_first());
        }
    }
}

/// Whether a text is white space only.
pub open spec fn is_blank(s: Seq<char>) -> bool {
    forall|i: int| 0 <= i < s.len() ==> is_white_space(#[trigger] s[i])
}

/// Whether a text holds something and has no white space around it.
pub open spec fn is_bare(s: Seq<char>) -> bool {
    s.len() > 0 && !is_white_space(s.first()) && !is_white_space(s.last())
}

/// White space in front of a text is trimmed.
proof fn lemma_trimmed_start(front: Seq<char>, s: Seq<char>)
    requires
        is_blank(front),
        s.len() > 0 ==> !is_white_space(s.first()),
    ensures
        trimmed_start(front + s) == s,
    decreases front.len(),
{
    if front.len() > 0 {
        assert(is_white_space(front[0]));
        assert((front + s).drop_first() =~= front.drop_first() + s);
        lemma_trimmed_start(front.drop_first(), s);
    } else {
        assert(front + s =~= s);
    }
}

/// White space behind a text is trimmed.
proof fn lemma_trimmed_end(s: Seq<char>, back: Seq<char>)
    requires
        is_blank(back),
        s.len() > 0 ==> !is_white_space(s.last()),
    ensures
        trimmed_end(s + back) == s,
    decreases back.len(),
{
    if back.len() > 0 {
        assert(is_white_space(back[back.len() - 1]));
        assert((s + back).drop_last() =~= s + back.drop_last());
        lemma_trimmed_end(s, back.drop_last());
    } else {
        assert(s + back =~= s);
    }
}

/// Trimming takes the white space around a text and leaves the text.
pub proof fn white_space_around_is_trimmed(front: Seq<char>, s: Seq<char>, back: Seq<char>)
    requires
        is_blank(front),
        is_bare(s),
        is_blank(back),
    ensures
        trimmed(front + s + back) == s,
{
    assert(front + s + back =~= front + (s + back));
    lemma_trimmed_start(front, s + back);
    lemma_trimmed_end(s, back);
}

/// Of white space only, trimming leaves nothing.
pub proof fn blank_text_is_trimmed_away(s: Seq<char>)
    requires
        is_blank(s),
    ensures
        trimmed(s).len() == 0,
{
    assert(s + Seq::empty() =~= s);
    lemma_trimmed_start(s, Seq::empty());
}

/// A text is split at the first place that has the character.
pub proof fn text_splits_at_first(before: Seq<char>, c: char, after: Seq<char>)
    requires
        !before.contains(c),
    ensures
        split_first(before + seq![c] + after, c) == Some((before, after)),
{
    let s = before + seq![c] + after;
    assert forall|i: int| 0 <= i < before.len() implies #[trigger] s[i] != c by {
        assert(before.contains(before[i]));
    }
    lemma_split_first(s, c, before.len() as int);
    assert(s.take(before.len() as int) =~= before);
    assert(s.skip((before.len() + 1) as int) =~= after);
}

/// A text is not split where the character does not occur.
pub proof fn text_without_it_is_not_split(s: Seq<char>, c: char)
    requires
        !s.contains(c),
    ensures
        split_first(s, c) is None,
{
    lemma_split_first(s, c, s.len() as int);
}

/// Joined lists can be joined again: the separator stands between the two, once.
pub proof fn joined_lists_join(
    first: Seq<Seq<char>>,
    second: Seq<Seq<char>>,
    separator: Seq<char>,
)
    requires
        first.len() > 0,
        second.len() > 0,
    ensures
        joined(first + second, separator) == joined(first, separator) + separator + joined(
            second,
            separator,
        ),
    decreases second.len(),
{
    let all = first + second;
    assert(all.last() == second.last());
    assert(all.drop_last() =~= first + second.drop_last());
    if second.len() == 1 {
        assert(first + second.drop_last() =~= first);
    } else {
        joined_lists_join(first, second.drop_last(), separator);
        assert(joined(first, separator) + separator + joined(second.drop_last(), separator)
            + separator + second.last() =~= joined(first, separator) + separator + (joined(
            second.drop_last(),
            separator,
        ) + separator + second.last()));
    }
}

/// One text joins to itself, and no text to nothing.
pub proof fn single_text_joins_to_itself(text: Seq<char>, separator: Seq<char>)
    ensures
        joined(seq![text], separator) == text,
        joined(Seq::empty(), separator).len() == 0,
{
}

/// An index is read digit by digit, as far as a `usize` can hold it, and a plus sign in front of it
/// changes nothing.
pub proof fn index_is_read_digit_by_digit(digits: Seq<char>, d: nat)
    requires
        d < 10,
        digits.len() > 0,
        all_digits(digits),
    ensures
        parsed_index(digits) matches Some(n) ==> parsed_index(digits.push(digit(d))) == (if n * 10
            + d <= usize::MAX {
            Some((n * 10 + d) as usize)
        } else {
            None
        }),
        parsed_index(digits) is None ==> parsed_index(digits.push(digit(d))) is None,
        parsed_index(seq!['+'] + digits) == parsed_index(digits),
        parsed_index(seq![digit(d)]) == Some(d as usize),
{
    let more = digits.push(digit(d));
    assert(is_digit(digits[0]));
    assert(digits.first() != '+' && more.first() == digits.first());
    assert(more.drop_last() =~= digits);
    assert forall|i: int| 0 <= i < more.len() implies is_digit(#[trigger] more[i]) by {
        if i < digits.len() {
            assert(is_digit(digits[i]));
        }
    }
    assert(digits_value(more) == digits_value(digits) * 10 + d);
    assert((seq!['+'] + digits).drop_first() =~= digits);
    reveal_with_fuel(digits_value, 2);
    assert(seq![digit(d)].drop_last() =~= Seq::empty());
}

/// A text that holds anything but digits after an optional plus sign is no index, nor is one
/// without a digit.
pub proof fn other_texts_are_no_index(s: Seq<char>)
    requires
        s.len() == 0 || s == seq!['+'] || exists|i: int|
            0 <= i < s.len() && !is_digit(#[trigger] s[i]) && (i > 0 || s[i] != '+'),
    ensures
        parsed_index(s) is None,
{
    let digits = if s.len() > 0 && s.first() == '+' {
        s.drop_first()
    } else {
        s
    };
    if s.len() > 0 && s != seq!['+'] {
        let i = choose|i: int|
            0 <= i < s.len() && !is_digit(#[trigger] s[i]) && (i > 0 || s[i] != '+');
        let k = if s.first() == '+' {
            i - 1
        } else {
            i
        };
        assert(!is_digit(digits[k]));
    } else {
        assert(digits.len() == 0);
    }
}

/// Texts are ordered by the first letter in which they differ, and a text comes before all that it
/// is the beginning of.
pub proof fn texts_are_ordered_letter_by_letter(
    start: Seq<char>,
    a: char,
    rest: Seq<char>,
    b: char,
    other: Seq<char>,
)
    requires
        a < b,
    ensures
        comes_before(start + seq![a] + rest, start + seq![b] + other),
        comes_before(start, start + seq![a] + rest),
        !comes_before(start + seq![b] + other, start + seq![a] + rest),
        !comes_before(start + seq![a] + rest, start),
    decreases start.len(),
{
    let one = start + seq![a] + rest;
    let two = start + seq![b] + other;
    if start.len() > 0 {
        assert(one.drop_first() =~= start.drop_first() + seq![a] + rest);
        assert(two.drop_first() =~= start.drop_first() + seq![b] + other);
        texts_are_ordered_letter_by_letter(start.drop_first(), a, rest, b, other);
    }
}

} // verus!
