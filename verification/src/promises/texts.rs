//! What the text primitives do, stated on characters and positions.
use vstd::prelude::*;
use crate::events;
use crate::text;

verus! {

/// A number is written with decimal digits, without leading zeros: one digit
/// below ten, and otherwise the digits of its tenth and one more.
pub proof fn numbers_are_written_in_decimal(n: nat, d: nat)
    requires
        d < 10,
    ensures
        text::decimal(d).len() == 1,
        text::decimal(d)[0] as int == 48 + d,
        n > 0 ==> text::decimal(n * 10 + d) == text::decimal(n) + text::decimal(d),
{
    if n > 0 {
        assert((n * 10 + d) / 10 == n && (n * 10 + d) % 10 == d);
        assert(text::decimal(n).push(text::digit_char(d)) =~= text::decimal(n) + seq![
            text::digit_char(d),
        ]);
    }
}

/// Different numbers are written differently, and none begins with a sign.
pub proof fn numbers_are_told_apart(n: nat, m: nat)
    ensures
        text::decimal(n) == text::decimal(m) ==> n == m,
        text::decimal(n).len() > 0,
        forall|i: int|
            0 <= i < text::decimal(n).len() ==> 48 <= (#[trigger] text::decimal(n)[i]) as int <= 57,
{
    text::decimal_round_trip(n);
    text::decimal_round_trip(m);
    assert forall|i: int| 0 <= i < text::decimal(n).len() implies 48 <= (#[trigger] text::decimal(
        n,
    )[i]) as int <= 57 by {
        assert(text::is_digit(text::decimal(n)[i]));
    }
}

/// What is written of a number is read as that number, with or without a plus
/// sign and up to the largest one that is asked for; leading zeros change
/// nothing.
pub proof fn numbers_are_read_back(n: nat, max: nat, digits: Seq<char>)
    ensures
        text::unsigned_value(text::decimal(n), max) == (if n <= max {
            Some(n)
        } else {
            None
        }),
        text::unsigned_value(seq!['+'] + text::decimal(n), max) == (if n <= max {
            Some(n)
        } else {
            None
        }),
        digits.len() > 0 && digits[0] != '+' ==> text::unsigned_value(seq!['0'] + digits, max)
            == text::unsigned_value(digits, max),
{
    let d = text::decimal(n);
    numbers_are_told_apart(n, n);
    text::decimal_round_trip(n);
    assert(d[0] != '+');
    assert(text::without_plus(d) == d);
    let signed = seq!['+'] + d;
    assert(text::without_plus(signed) =~= d);
    if digits.len() > 0 && digits[0] != '+' {
        let padded = seq!['0'] + digits;
        assert(padded[0] == '0');
        assert(text::without_plus(padded) == padded);
        assert(text::without_plus(digits) == digits);
        a_zero_in_front_changes_nothing(digits);
        if text::all_digits(digits) {
            assert forall|i: int| 0 <= i < padded.len() implies text::is_digit(
                #[trigger] padded[i],
            ) by {
                if i > 0 {
                    assert(text::is_digit(digits[i - 1]));
                }
            }
        }
        if text::all_digits(padded) {
            assert forall|i: int| 0 <= i < digits.len() implies text::is_digit(
                #[trigger] digits[i],
            ) by {
                assert(text::is_digit(padded[i + 1]));
            }
        }
    }
}

proof fn a_zero_in_front_changes_nothing(digits: Seq<char>)
    ensures
        text::digits_value(seq!['0'] + digits) == text::digits_value(digits),
    decreases digits.len(),
{
    let padded = seq!['0'] + digits;
    if digits.len() == 0 {
        assert(padded.drop_last() =~= Seq::<char>::empty());
        assert(padded.last() == '0');
        assert(text::digits_value(Seq::<char>::empty()) == 0);
    } else {
        a_zero_in_front_changes_nothing(digits.drop_last());
        assert(padded.drop_last() =~= seq!['0'] + digits.drop_last());
        assert(padded.last() == digits.last());
    }
}

/// Nothing but digits is read as an unsigned number: no empty text, no lone
/// sign, and no text that holds any other character, apart from one plus sign
/// in front.
pub proof fn only_digits_are_numbers(s: Seq<char>, max: nat, at: int)
    ensures
        s.len() == 0 ==> text::unsigned_value(s, max) is None,
        s == seq!['+'] ==> text::unsigned_value(s, max) is None,
        0 <= at < s.len() && !(48 <= s[at] as int <= 57) && !(at == 0 && s[0] == '+')
            ==> text::unsigned_value(s, max) is None,
        text::unsigned_value(s, max) matches Some(n) ==> n <= max,
{
    let digits = text::without_plus(s);
    if 0 <= at < s.len() && !(48 <= s[at] as int <= 57) && !(at == 0 && s[0] == '+') {
        if s[0] == '+' {
            assert(digits[at - 1] == s[at]);
        } else {
            assert(digits[at] == s[at]);
        }
    }
}

/// A signed number is an unsigned one, or one behind a minus sign, within the
/// range of 64 bits.
pub proof fn signed_numbers_are_read(n: nat)
    ensures
        text::signed_value(text::decimal(n)) == (if n <= i64::MAX {
            Some(n as int)
        } else {
            None
        }),
        text::signed_value(seq!['-'] + text::decimal(n)) == (if n <= i64::MAX + 1 {
            Some(-(n as int))
        } else {
            None
        }),
        text::signed_value(seq!['-']) is None,
{
    numbers_are_read_back(n, i64::MAX as nat, Seq::empty());
    numbers_are_told_apart(n, n);
    text::decimal_round_trip(n);
    let negative = seq!['-'] + text::decimal(n);
    assert(negative.subrange(1, negative.len() as int) =~= text::decimal(n));
    assert(negative[0] == '-');
    assert(text::decimal(n)[0] != '-');
}

/// Lowercase changes the letters A to Z, each to its small one, and nothing
/// else.
pub proof fn lowercase_is_character_by_character(s: Seq<char>, i: int)
    requires
        0 <= i < s.len(),
    ensures
        text::lower(s).len() == s.len(),
        65 <= s[i] as int <= 90 ==> text::lower(s)[i] as int == s[i] as int + 32,
        !(65 <= s[i] as int <= 90) ==> text::lower(s)[i] == s[i],
{
}

/// White space, by character code.
pub open spec fn blank(c: char) -> bool {
    let n = c as int;
    (9 <= n && n <= 13) || n == 32 || n == 133 || n == 160 || n == 5760 || (8192 <= n && n <= 8202)
        || n == 8232 || n == 8233 || n == 8239 || n == 8287 || n == 12288
}

/// Trimming takes the blanks off both ends and nothing else: what is left
/// stands in the text from `a` up to `b`.
pub open spec fn is_core(s: Seq<char>, a: int, b: int) -> bool {
    &&& 0 <= a <= b <= s.len()
    &&& forall|i: int| 0 <= i < a ==> blank(#[trigger] s[i])
    &&& forall|i: int| b <= i < s.len() ==> blank(#[trigger] s[i])
    &&& a < b ==> !blank(s[a]) && !blank(s[b - 1])
}

/// Trimming leaves the text between its blank ends.
pub proof fn trimming_takes_blanks_off_the_ends(s: Seq<char>)
    ensures
        exists|a: int, b: int| #[trigger] is_core(s, a, b) && text::trimmed(s) == s.subrange(a, b),
{
    let front = text::trim_start(s);
    let a = s.len() - front.len();
    leading_blanks(s);
    trailing_blanks(front);
    let b = a + text::trim_end(front).len();
    assert(text::trimmed(s) =~= s.subrange(a, b));
    assert forall|i: int| b <= i < s.len() implies blank(#[trigger] s[i]) by {
        assert(front[i - a] == s[i]);
    }
    if a < b {
        assert(s[b - 1] == front[b - 1 - a]);
        assert(s[a] == front[0]);
    }
    assert(is_core(s, a, b));
}

proof fn leading_blanks(s: Seq<char>)
    ensures
        ({
            let rest = text::trim_start(s);
            let a = s.len() - rest.len();
            &&& 0 <= a <= s.len()
            &&& rest == s.subrange(a, s.len() as int)
            &&& forall|i: int| 0 <= i < a ==> blank(#[trigger] s[i])
            &&& rest.len() > 0 ==> !blank(rest[0])
        }),
    decreases s.len(),
{
    if s.len() > 0 && text::is_white(s[0]) {
        let less = s.subrange(1, s.len() as int);
        leading_blanks(less);
        let a = less.len() - text::trim_start(less).len();
        assert(text::trim_start(s) =~= s.subrange(a + 1, s.len() as int));
        assert forall|i: int| 0 <= i < a + 1 implies blank(#[trigger] s[i]) by {
            if i > 0 {
                assert(less[i - 1] == s[i]);
            }
        }
    } else {
        assert(s =~= s.subrange(0, s.len() as int));
    }
}

proof fn trailing_blanks(s: Seq<char>)
    ensures
        ({
            let rest = text::trim_end(s);
            &&& rest.len() <= s.len()
            &&& rest == s.subrange(0, rest.len() as int)
            &&& forall|i: int| rest.len() <= i < s.len() ==> blank(#[trigger] s[i])
            &&& rest.len() > 0 ==> !blank(rest[rest.len() - 1])
        }),
    decreases s.len(),
{
    if s.len() > 0 && text::is_white(s.last()) {
        let less = s.drop_last();
        trailing_blanks(less);
        assert(text::trim_end(s) =~= s.subrange(0, text::trim_end(less).len() as int));
        assert forall|i: int| text::trim_end(less).len() <= i < s.len() implies blank(
            #[trigger] s[i],
        ) by {
            if i < less.len() {
                assert(less[i] == s[i]);
            }
        }
    } else {
        assert(s =~= s.subrange(0, s.len() as int));
    }
}

/// Two texts agree up to `k`, where the first one ends or has the smaller
/// character.
pub open spec fn first_differs(a: Seq<char>, b: Seq<char>, k: int) -> bool {
    &&& 0 <= k <= a.len() && k < b.len()
    &&& forall|j: int| 0 <= j < k ==> #[trigger] a[j] == b[j]
    &&& k == a.len() || (a[k] as int) < (b[k] as int)
}

/// Dictionary order is decided at the first place where two texts differ.
pub proof fn dictionary_order_is_decided_at_the_first_difference(a: Seq<char>, b: Seq<char>)
    ensures
        text::comes_before(a, b) <==> exists|k: int| #[trigger] first_differs(a, b, k),
    decreases a.len(),
{
    if a.len() > 0 && b.len() > 0 && a[0] == b[0] {
        let (x, y) = (a.drop_first(), b.drop_first());
        dictionary_order_is_decided_at_the_first_difference(x, y);
        if text::comes_before(a, b) {
            let k = choose|k: int| #[trigger] first_differs(x, y, k);
            assert forall|j: int| 0 <= j < k + 1 implies #[trigger] a[j] == b[j] by {
                if j > 0 {
                    assert(x[j - 1] == y[j - 1]);
                }
            }
            assert(first_differs(a, b, k + 1));
        }
        if exists|k: int| #[trigger] first_differs(a, b, k) {
            let k = choose|k: int| #[trigger] first_differs(a, b, k);
            assert forall|j: int| 0 <= j < k - 1 implies #[trigger] x[j] == y[j] by {
                assert(a[j + 1] == b[j + 1]);
            }
            assert(first_differs(x, y, k - 1));
        }
    } else if b.len() > 0 {
        if text::comes_before(a, b) {
            assert(first_differs(a, b, 0));
        }
        if exists|k: int| #[trigger] first_differs(a, b, k) {
            let k = choose|k: int| #[trigger] first_differs(a, b, k);
            if k > 0 {
                assert(a[0] == b[0]);
            }
        }
    }
}

/// A part occurs in a text where the text is something, the part, and
/// something.
pub proof fn occurring_is_standing_between(s: Seq<char>, part: Seq<char>, before: Seq<char>, after: Seq<
    char,
>)
    ensures
        s == before + part + after ==> text::occurs(s, part),
        text::occurs(s, part) ==> exists|x: Seq<char>, y: Seq<char>| s == #[trigger] (x + part + y),
{
    if s == before + part + after {
        assert(s.subrange(before.len() as int, before.len() as int + part.len() as int) =~= part);
        assert(text::occurs_at(s, part, before.len() as int));
    }
    if text::occurs(s, part) {
        let at = choose|at: int| #[trigger] text::occurs_at(s, part, at);
        let (x, y) = (s.take(at), s.skip(at + part.len()));
        assert(s =~= x + part + y) by {
            assert forall|i: int| 0 <= i < s.len() implies s[i] == (x + part + y)[i] by {
                if at <= i < at + part.len() {
                    assert(s.subrange(at, at + part.len())[i - at] == s[i]);
                }
            }
        }
    }
}

/// The parts with `c` between them.
pub open spec fn put_together(parts: Seq<Seq<char>>, c: char) -> Seq<char>
    decreases parts.len(),
{
    if parts.len() == 0 {
        Seq::empty()
    } else if parts.len() == 1 {
        parts[0]
    } else {
        put_together(parts.drop_last(), c) + seq![c] + parts.last()
    }
}

/// Splitting loses nothing: the parts hold no separator, and put together they
/// are the text.
pub proof fn splitting_loses_nothing(s: Seq<char>, c: char)
    ensures
        text::split(s, c).len() >= 1,
        put_together(text::split(s, c), c) == s,
        forall|i: int|
            0 <= i < text::split(s, c).len() ==> !(#[trigger] text::split(s, c)[i]).contains(c),
    decreases s.len(),
{
    let parts = text::split(s, c);
    if s.len() == 0 {
        assert(put_together(parts, c) =~= s);
    } else {
        let front = text::split(s.drop_last(), c);
        splitting_loses_nothing(s.drop_last(), c);
        if s.last() == c {
            assert(parts.drop_last() =~= front);
            assert(put_together(parts, c) =~= s.drop_last() + seq![c] + Seq::<char>::empty());
            assert(s =~= s.drop_last() + seq![c]);
            assert forall|i: int| 0 <= i < parts.len() implies !(#[trigger] parts[i]).contains(
                c,
            ) by {
                if i < front.len() {
                    assert(parts[i] == front[i]);
                }
            }
        } else {
            let grown = front.last().push(s.last());
            assert(parts.drop_last() =~= front.drop_last());
            assert(parts.last() == grown);
            if front.len() == 1 {
                assert(parts[0] == grown);
                assert(front[0] == front.last());
                assert(put_together(parts, c) =~= s);
            } else {
                let head = put_together(front.drop_last(), c) + seq![c];
                assert(head + grown =~= (head + front.last()).push(s.last()));
                assert(s =~= s.drop_last().push(s.last()));
            }
            assert forall|i: int| 0 <= i < parts.len() implies !(#[trigger] parts[i]).contains(
                c,
            ) by {
                if i < front.len() - 1 {
                    assert(parts[i] == front[i]);
                } else {
                    let old_part = front[front.len() - 1];
                    assert(!old_part.contains(c));
                    if grown.contains(c) {
                        let j = choose|j: int| 0 <= j < grown.len() && grown[j] == c;
                        assert(j < old_part.len());
                        assert(old_part[j] == c);
                    }
                }
            }
        }
    }
}

/// What follows the last separator is the end of the text, and holds no
/// separator; where it is not the whole text a separator stands before it.
pub proof fn the_tail_follows_the_last_separator(s: Seq<char>, c: char)
    ensures
        ({
            let tail = text::after_last(s, c);
            &&& tail.len() <= s.len()
            &&& s.skip(s.len() - tail.len()) == tail
            &&& !tail.contains(c)
            &&& tail.len() < s.len() ==> s[s.len() - tail.len() - 1] == c
        }),
    decreases s.len(),
{
    if s.len() > 0 && s.last() != c {
        let front = s.drop_last();
        the_tail_follows_the_last_separator(front, c);
        let (less, tail) = (text::after_last(front, c), text::after_last(s, c));
        assert(s.skip(s.len() - tail.len()) =~= tail) by {
            assert forall|i: int| 0 <= i < tail.len() implies s.skip(s.len() - tail.len())[i]
                == tail[i] by {
                if i < less.len() {
                    assert(front.skip(front.len() - less.len())[i] == less[i]);
                }
            }
        }
        if tail.contains(c) {
            let j = choose|j: int| 0 <= j < tail.len() && tail[j] == c;
            assert(j < less.len());
            assert(less[j] == c);
        }
    } else {
        assert(s.skip(s.len() as int) =~= Seq::<char>::empty());
    }
}

/// The first place of a character is the only one with none before it.
pub proof fn the_first_place_has_none_before(s: Seq<char>, c: char)
    ensures
        match text::first_index(s, c) {
            Some(at) => 0 <= at < s.len() && s[at] == c && forall|j: int|
                0 <= j < at ==> #[trigger] s[j] != c,
            None => !s.contains(c),
        },
    decreases s.len(),
{
    if s.len() > 0 && s[0] != c {
        let rest = s.skip(1);
        the_first_place_has_none_before(rest, c);
        match text::first_index(rest, c) {
            Some(at) => {
                assert forall|j: int| 0 <= j < at + 1 implies #[trigger] s[j] != c by {
                    if j > 0 {
                        assert(rest[j - 1] == s[j]);
                    }
                }
            },
            None => {
                if s.contains(c) {
                    let j = choose|j: int| 0 <= j < s.len() && s[j] == c;
                    assert(rest[j - 1] == c);
                }
            },
        }
    }
}

/// The first occurrence of a part is one with none before it.
pub proof fn the_first_occurrence_has_none_before(s: Seq<char>, part: Seq<char>, at: int, j: int)
    requires
        text::first_occurrence(s, part) == Some(at),
    ensures
        0 <= at,
        at + part.len() <= s.len(),
        s.subrange(at, at + part.len()) == part,
        0 <= j < at ==> s.subrange(j, j + part.len()) != part,
{
    assert(text::occurs(s, part)) by {
        reveal(text::first_occurrence);
    }
    let any = choose|any: int| #[trigger] text::occurs_at(s, part, any);
    let first = the_least_occurrence(s, part, any);
    text::first_occurrence_found(s, part, first);
    assert(text::occurs_at(s, part, at));
    if 0 <= j < at {
        assert(!text::occurs_at(s, part, j));
    }
}

proof fn the_least_occurrence(s: Seq<char>, part: Seq<char>, at: int) -> (first: int)
    requires
        text::occurs_at(s, part, at),
    ensures
        text::occurs_at(s, part, first),
        forall|j: int| 0 <= j < first ==> !#[trigger] text::occurs_at(s, part, j),
    decreases at,
{
    if exists|j: int| 0 <= j < at && #[trigger] text::occurs_at(s, part, j) {
        let j = choose|j: int| 0 <= j < at && #[trigger] text::occurs_at(s, part, j);
        the_least_occurrence(s, part, j)
    } else {
        at
    }
}

/// A reader resumes after the number it names; without a header, or with a
/// blank one, at the beginning. Anything that is not a number is refused.
pub proof fn a_reader_resumes_where_it_says(bytes: Seq<u8>, n: nat, at: int)
    ensures
        events::resume_point(None) == Ok::<u64, Seq<char>>(0),
        (forall|i: int| 0 <= i < bytes.len() ==> #[trigger] bytes[i] == 32 || bytes[i] == 9)
            ==> events::resume_point(Some(bytes)) == Ok::<u64, Seq<char>>(0),
        bytes.map_values(|b: u8| b as char) == text::decimal(n) && n <= u64::MAX
            ==> events::resume_point(Some(bytes)) == Ok::<u64, Seq<char>>(n as u64),
        bytes.map_values(|b: u8| b as char) == text::decimal(n) && n > u64::MAX
            ==> events::resume_point(Some(bytes)) is Err,
        0 <= at < bytes.len() && bytes[at] != 9 && !(32 <= bytes[at] < 127)
            ==> events::resume_point(Some(bytes)) is Err,
        0 <= at < bytes.len() && bytes[at] != 9 && bytes[at] != 32 && bytes[at] != 43 && !(48
            <= bytes[at] <= 57) ==> events::resume_point(Some(bytes)) is Err,
{
    let chars = crate::header::ascii_text(bytes);
    assert(chars == bytes.map_values(|b: u8| b as char));
    trimming_takes_blanks_off_the_ends(chars);
    let (a, b) = choose|a: int, b: int| #[trigger]
        is_core(chars, a, b) && text::trimmed(chars) == chars.subrange(a, b);
    let cursor = text::trimmed(chars);
    if forall|i: int| 0 <= i < bytes.len() ==> #[trigger] bytes[i] == 32 || bytes[i] == 9 {
        if a < b {
            assert(chars[a] == bytes[a] as char);
            assert(blank(chars[a]));
        }
        assert(cursor.len() == 0);
        assert(crate::header::all_visible(bytes));
    }
    if chars == text::decimal(n) {
        numbers_are_told_apart(n, n);
        numbers_are_read_back(n, u64::MAX as nat, Seq::empty());
        assert forall|i: int| 0 <= i < bytes.len() implies crate::header::visible(
            #[trigger] bytes[i],
        ) by {
            assert(chars[i] == bytes[i] as char);
            assert(48 <= text::decimal(n)[i] as int <= 57);
        }
        assert(!blank(text::decimal(n)[0]));
        if a > 0 {
            assert(blank(chars[0]));
        }
        let last = chars.len() - 1;
        assert(48 <= text::decimal(n)[last] as int <= 57);
        if b < chars.len() {
            assert(blank(chars[last]));
        }
        assert(cursor =~= chars);
    }
    if 0 <= at < bytes.len() && bytes[at] != 9 && !(32 <= bytes[at] < 127) {
        assert(!crate::header::visible(bytes[at]));
    } else if 0 <= at < bytes.len() && bytes[at] != 9 && bytes[at] != 32 && bytes[at] != 43 && !(48
        <= bytes[at] <= 57) {
        if crate::header::all_visible(bytes) {
            assert(chars[at] == bytes[at] as char);
            assert(!blank(chars[at])) by {
                assert(33 <= bytes[at] < 127);
            }
            assert(a <= at < b);
            assert(cursor[at - a] == chars[at]);
            only_digits_are_numbers(cursor, u64::MAX as nat, at - a);
        }
    }
}

} // verus!
