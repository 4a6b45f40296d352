//! Character-level text operations that the rest of the crate is built on.

use vstd::prelude::*;
use vstd::string::StringSliceAdditionalSpecFns;
use vstd::utf8::{encode_scalar, encode_utf8, is_char_boundary};

verus! {

/// `String::push`: the character is appended at the end.
pub assume_specification[ String::push ](s: &mut String, c: char)
    ensures
        final(s)@ == old(s)@.push(c),
;

/// The characters of `s`, one by one.
pub fn chars_of(s: &str) -> (chars: Vec<char>)
    ensures
        chars@ == s@,
{
    let mut chars: Vec<char> = Vec::new();
    for c in iter: s.chars()
        invariant
            iter.seq() == s@,
            chars@ == s@.take(iter.index() as int),
    {
        chars.push(c);
    }
    proof {
        assert(s@.take(s@.len() as int) =~= s@);
    }
    chars
}

/// The text made of `chars[from..to]`.
pub fn text_of(chars: &Vec<char>, from: usize, to: usize) -> (s: String)
    requires
        from <= to <= chars@.len(),
    ensures
        s@ == chars@.subrange(from as int, to as int),
{
    let mut s = String::new();
    let mut i: usize = from;
    while i < to
        invariant
            from <= i <= to <= chars@.len(),
            s@ == chars@.subrange(from as int, i as int),
        decreases to - i,
    {
        s.push(chars[i]);
        i = i + 1;
        proof {
            assert(chars@.subrange(from as int, i as int) =~= chars@.subrange(
                from as int,
                i - 1,
            ).push(chars@[i - 1]));
        }
    }
    s
}

/// Whether two texts hold the same characters.
pub fn same_text(a: &str, b: &str) -> (same: bool)
    ensures
        same == (a@ == b@),
{
    let x = a.as_bytes();
    let y = b.as_bytes();
    proof {
        vstd::utf8::encode_utf8_decode_utf8(a@);
        vstd::utf8::encode_utf8_decode_utf8(b@);
    }
    if x.len() != y.len() {
        return false;
    }
    let mut i: usize = 0;
    while i < x.len()
        invariant
            x@ == encode_utf8(a@),
            y@ == encode_utf8(b@),
            x@.len() == y@.len(),
            i <= x@.len(),
            forall|k: int| 0 <= k < i ==> x@[k] == y@[k],
        decreases x.len() - i,
    {
        if x[i] != y[i] {
            return false;
        }
        i = i + 1;
    }
    proof {
        assert(x@ =~= y@);
    }
    true
}

/// The views of a list's items.
pub open spec fn views<T: View>(list: Seq<T>) -> Seq<T::V> {
    Seq::new(list.len(), |i: int| list[i]@)
}

/// The view of a longer list is the longer view.
pub proof fn lemma_views_push<T: View>(list: Seq<T>, item: T)
    ensures
        views(list.push(item)) == views(list).push(item@),
{
    assert(views(list.push(item)) =~= views(list).push(item@));
}

/// The view of an optional item.
pub open spec fn option_view<T: View>(item: Option<T>) -> Option<T::V> {
    match item {
        Some(value) => Some(value@),
        None => None,
    }
}

/// Whether `c` has Unicode's `White_Space` property.
pub open spec fn is_white(c: char) -> bool {
    ||| '\u{9}' <= c <= '\u{d}'
    ||| c == '\u{20}'
    ||| c == '\u{85}'
    ||| c == '\u{a0}'
    ||| c == '\u{1680}'
    ||| '\u{2000}' <= c <= '\u{200a}'
    ||| c == '\u{2028}'
    ||| c == '\u{2029}'
    ||| c == '\u{202f}'
    ||| c == '\u{205f}'
    ||| c == '\u{3000}'
}

/// Decides [`is_white`].
pub fn white_space(c: char) -> (white: bool)
    ensures
        white == is_white(c),
{
    ('\u{9}' <= c && c <= '\u{d}') || c == '\u{20}' || c == '\u{85}' || c == '\u{a0}' || c
        == '\u{1680}' || ('\u{2000}' <= c && c <= '\u{200a}') || c == '\u{2028}' || c == '\u{2029}'
        || c == '\u{202f}' || c == '\u{205f}' || c == '\u{3000}'
}

/// `s` without its leading white space.
pub open spec fn trim_start(s: Seq<char>) -> Seq<char>
    decreases s.len(),
{
    if s.len() > 0 && is_white(s.first()) {
        trim_start(s.drop_first())
    } else {
        s
    }
}

/// `s` without its trailing white space.
pub open spec fn trim_end(s: Seq<char>) -> Seq<char>
    decreases s.len(),
{
    if s.len() > 0 && is_white(s.last()) {
        trim_end(s.drop_last())
    } else {
        s
    }
}

/// `s` without the white space around it.
pub open spec fn trimmed(s: Seq<char>) -> Seq<char> {
    trim_end(trim_start(s))
}

/// Trims white space at both ends.
pub fn trim(s: &str) -> (t: String)
    ensures
        t@ == trimmed(s@),
{
    let chars = chars_of(s);
    let mut from: usize = 0;
    proof {
        assert(chars@.skip(0) =~= chars@);
    }
    while from < chars.len() && white_space(chars[from])
        invariant
            from <= chars@.len(),
            trim_start(chars@) == trim_start(chars@.skip(from as int)),
        decreases chars.len() - from,
    {
        proof {
            assert(chars@.skip(from as int).drop_first() =~= chars@.skip(from + 1));
        }
        from = from + 1;
    }
    let ghost tail = chars@.skip(from as int);
    proof {
        assert(trim_start(chars@) == tail);
    }
    let mut to: usize = chars.len();
    proof {
        assert(chars@.subrange(from as int, to as int) =~= tail);
    }
    while to > from && white_space(chars[to - 1])
        invariant
            from <= to <= chars@.len(),
            trim_end(tail) == trim_end(chars@.subrange(from as int, to as int)),
        decreases to,
    {
        proof {
            assert(chars@.subrange(from as int, to as int).drop_last() =~= chars@.subrange(
                from as int,
                to - 1,
            ));
        }
        to = to - 1;
    }
    text_of(&chars, from, to)
}

/// Whether nothing is left of `s` after trimming.
pub fn is_blank(s: &str) -> (blank: bool)
    ensures
        blank == (trimmed(s@).len() == 0),
{
    let t = trim(s);
    t.as_str().is_empty()
}

/// The character of one decimal digit.
pub open spec fn digit_char(d: nat) -> char {
    (('0' as u32) + d) as char
}

/// The decimal digits of `n`, without leading zeros.
pub open spec fn decimal(n: nat) -> Seq<char>
    decreases n,
{
    if n < 10 {
        seq![digit_char(n)]
    } else {
        decimal(n / 10).push(digit_char(n % 10))
    }
}

/// The decimal text of an integer, with a minus sign where it is negative.
pub open spec fn signed_decimal(n: int) -> Seq<char> {
    if n < 0 {
        seq!['-'] + decimal((-n) as nat)
    } else {
        decimal(n as nat)
    }
}

fn digit(d: u64) -> (c: char)
    requires
        d < 10,
    ensures
        c == digit_char(d as nat),
{
    match d {
        0 => '0',
        1 => '1',
        2 => '2',
        3 => '3',
        4 => '4',
        5 => '5',
        6 => '6',
        7 => '7',
        8 => '8',
        _ => '9',
    }
}

/// Appends the decimal digits of `n`.
pub fn push_decimal(out: &mut String, n: u64)
    ensures
        final(out)@ == old(out)@ + decimal(n as nat),
    decreases n,
{
    if n >= 10 {
        push_decimal(out, n / 10);
    }
    out.push(digit(n % 10));
    proof {
        assert(out@ =~= old(out)@ + decimal(n as nat));
    }
}

/// The decimal digits of `n`.
pub fn decimal_text(n: u64) -> (s: String)
    ensures
        s@ == decimal(n as nat),
{
    let mut s = String::new();
    push_decimal(&mut s, n);
    proof {
        assert(s@ =~= decimal(n as nat));
    }
    s
}

/// The decimal text of a signed integer.
pub fn signed_decimal_text(n: i64) -> (s: String)
    ensures
        s@ == signed_decimal(n as int),
{
    let mut s = String::new();
    if n < 0 {
        s.push('-');
        let magnitude: u64 = (-(n as i128)) as u64;
        push_decimal(&mut s, magnitude);
        proof {
            assert(s@ =~= signed_decimal(n as int));
        }
    } else {
        push_decimal(&mut s, n as u64);
        proof {
            assert(s@ =~= signed_decimal(n as int));
        }
    }
    s
}

/// Whether `c` is an ASCII digit.
pub open spec fn is_digit(c: char) -> bool {
    '0' <= c <= '9'
}

/// The number that a sequence of digits stands for.
pub open spec fn digits_value(s: Seq<char>) -> nat
    decreases s.len(),
{
    if s.len() == 0 {
        0
    } else {
        digits_value(s.drop_last()) * 10 + ((s.last() as u32) - ('0' as u32)) as nat
    }
}

/// A number's decimal digits write that number.
pub proof fn lemma_decimal_value(n: nat)
    ensures
        digits_value(decimal(n)) == n,
    decreases n,
{
    if n >= 10 {
        lemma_decimal_value(n / 10);
        assert(decimal(n).drop_last() =~= decimal(n / 10));
    } else {
        assert(decimal(n).drop_last() =~= Seq::empty());
        reveal_with_fuel(digits_value, 2);
    }
}

/// `s` without one leading plus sign.
pub open spec fn without_plus(s: Seq<char>) -> Seq<char> {
    if s.len() > 0 && s[0] == '+' {
        s.drop_first()
    } else {
        s
    }
}

/// Whether every character is an ASCII digit.
pub open spec fn all_digits(s: Seq<char>) -> bool {
    forall|i: int| 0 <= i < s.len() ==> is_digit(#[trigger] s[i])
}

/// The unsigned number written in `s`: an optional plus sign, then one or more
/// digits, with a value that 64 bits can hold.
pub open spec fn parsed_u64(s: Seq<char>) -> Option<u64> {
    let digits = without_plus(s);
    if digits.len() > 0 && all_digits(digits) && digits_value(digits) <= u64::MAX {
        Some(digits_value(digits) as u64)
    } else {
        None
    }
}

proof fn lemma_digits_value_grows(s: Seq<char>, k: int)
    requires
        0 <= k <= s.len(),
        all_digits(s),
    ensures
        digits_value(s.take(k)) <= digits_value(s),
    decreases s.len(),
{
    if k == s.len() {
        assert(s.take(k) =~= s);
    } else {
        lemma_digits_value_grows(s.drop_last(), k);
        assert(s.drop_last().take(k) =~= s.take(k));
    }
}

/// Parses an unsigned number, as [`parsed_u64`] says.
pub fn parse_u64(s: &str) -> (n: Option<u64>)
    ensures
        n == parsed_u64(s@),
{
    let chars = chars_of(s);
    let start: usize = if chars.len() > 0 && chars[0] == '+' {
        1
    } else {
        0
    };
    let ghost digits = without_plus(s@);
    proof {
        assert(digits =~= chars@.skip(start as int));
    }
    if start == chars.len() {
        return None;
    }
    let mut value: u64 = 0;
    let mut i: usize = start;
    proof {
        assert(digits.take(0) =~= Seq::<char>::empty());
    }
    while i < chars.len()
        invariant
            chars@ == s@,
            digits == without_plus(s@),
            digits == chars@.skip(start as int),
            start <= i <= chars@.len(),
            start < chars@.len(),
            all_digits(digits.take(i - start)),
            value == digits_value(digits.take(i - start)),
        decreases chars.len() - i,
    {
        let c = chars[i];
        let ghost k = i - start;
        proof {
            assert(digits[k] == c);
        }
        if c < '0' || c > '9' {
            return None;
        }
        let d: u64 = (c as u32 - '0' as u32) as u64;
        proof {
            assert(digits.take(k + 1).drop_last() =~= digits.take(k));
            assert(digits.take(k + 1).last() == c);
            assert forall|j: int| 0 <= j < k + 1 implies is_digit(#[trigger] digits.take(k + 1)[j]) by {
                if j < k {
                    assert(digits.take(k)[j] == digits.take(k + 1)[j]);
                }
            }
            if all_digits(digits) {
                lemma_digits_value_grows(digits, k + 1);
            }
        }
        match value.checked_mul(10) {
            None => {
                return None;
            },
            Some(tens) => {
                match tens.checked_add(d) {
                    None => {
                        return None;
                    },
                    Some(next) => {
                        value = next;
                    },
                }
            },
        }
        i = i + 1;
    }
    proof {
        assert(digits.take(digits.len() as int) =~= digits);
    }
    Some(value)
}

/// Whether `head` begins `s`.
pub open spec fn begins_with(s: Seq<char>, head: Seq<char>) -> bool {
    head.len() <= s.len() && s.take(head.len() as int) == head
}

/// Whether `needle` stands at position `at` of `hay`.
pub open spec fn occurs_at(hay: Seq<char>, needle: Seq<char>, at: int) -> bool {
    0 <= at && at + needle.len() <= hay.len() && hay.subrange(at, at + needle.len()) == needle
}

/// Whether `needle` stands anywhere in `hay`.
pub open spec fn holds_text(hay: Seq<char>, needle: Seq<char>) -> bool {
    exists|at: int| occurs_at(hay, needle, at)
}

/// Decides [`occurs_at`] over characters.
pub fn occurs_at_chars(hay: &Vec<char>, needle: &Vec<char>, at: usize) -> (found: bool)
    ensures
        found == occurs_at(hay@, needle@, at as int),
{
    if at > hay.len() || hay.len() - at < needle.len() {
        return false;
    }
    let len = hay.len();
    let mut i: usize = 0;
    while i < needle.len()
        invariant
            len == hay@.len(),
            at + needle@.len() <= len,
            i <= needle@.len(),
            forall|k: int| 0 <= k < i ==> hay@[at + k] == needle@[k],
        decreases needle.len() - i,
    {
        if hay[at + i] != needle[i] {
            proof {
                assert(hay@.subrange(at as int, at + needle@.len())[i as int] != needle@[i as int]);
            }
            return false;
        }
        i = i + 1;
    }
    proof {
        assert(hay@.subrange(at as int, at + needle@.len()) =~= needle@);
    }
    true
}

/// Whether `s` begins with `head`.
pub fn starts_with(s: &str, head: &str) -> (yes: bool)
    ensures
        yes == begins_with(s@, head@),
{
    let hay = chars_of(s);
    let needle = chars_of(head);
    proof {
        if head@.len() <= s@.len() {
            assert(s@.subrange(0, head@.len() as int) =~= s@.take(head@.len() as int));
        }
    }
    occurs_at_chars(&hay, &needle, 0)
}

/// What follows `head` in `s`, where `s` begins with it.
pub fn strip_prefix(s: &str, head: &str) -> (rest: Option<String>)
    ensures
        rest is Some <==> begins_with(s@, head@),
        rest matches Some(r) ==> r@ == s@.skip(head@.len() as int),
{
    if !starts_with(s, head) {
        return None;
    }
    let hay = chars_of(s);
    let n = chars_of(head).len();
    let rest = text_of(&hay, n, hay.len());
    proof {
        assert(rest@ =~= s@.skip(head@.len() as int));
    }
    Some(rest)
}

/// Whether `needle` stands anywhere in `hay`.
pub fn contains_text(hay: &str, needle: &str) -> (found: bool)
    ensures
        found == holds_text(hay@, needle@),
{
    let h = chars_of(hay);
    let n = chars_of(needle);
    let mut at: usize = 0;
    while at <= h.len()
        invariant
            h@ == hay@,
            n@ == needle@,
            at <= h@.len() + 1,
            forall|k: int| 0 <= k < at ==> !#[trigger] occurs_at(hay@, needle@, k),
        decreases h.len() + 1 - at,
    {
        if occurs_at_chars(&h, &n, at) {
            return true;
        }
        if at == h.len() {
            return false;
        }
        at = at + 1;
    }
    false
}

/// The texts of `list`, with `sep` between each two.
pub open spec fn joined(list: Seq<Seq<char>>, sep: Seq<char>) -> Seq<char>
    decreases list.len(),
{
    if list.len() == 0 {
        Seq::empty()
    } else if list.len() == 1 {
        list[0]
    } else {
        joined(list.drop_last(), sep) + sep + list.last()
    }
}

/// Joins texts with a separator.
pub fn join(list: &Vec<String>, sep: &str) -> (s: String)
    ensures
        s@ == joined(views(list@), sep@),
{
    let mut s = String::new();
    let mut i: usize = 0;
    let ghost all = views(list@);
    proof {
        assert(all.take(0) =~= Seq::<Seq<char>>::empty());
    }
    while i < list.len()
        invariant
            all == views(list@),
            i <= list@.len(),
            s@ == joined(all.take(i as int), sep@),
        decreases list.len() - i,
    {
        if i > 0 {
            s.append(sep);
        }
        s.append(list[i].as_str());
        proof {
            let next = all.take(i + 1);
            assert(next.drop_last() =~= all.take(i as int));
            assert(next.last() == list@[i as int]@);
            if i == 0 {
                assert(s@ =~= next[0]);
            }
        }
        i = i + 1;
    }
    proof {
        assert(all.take(all.len() as int) =~= all);
    }
    s
}

/// `s` with every occurrence of `pat`, from the left and without overlap,
/// replaced by `by`; an empty `pat` occurs before, between and after all
/// characters.
pub open spec fn replaced(s: Seq<char>, pat: Seq<char>, by: Seq<char>) -> Seq<char>
    decreases s.len(),
{
    if pat.len() == 0 {
        if s.len() == 0 {
            by
        } else {
            by + seq![s[0]] + replaced(s.drop_first(), pat, by)
        }
    } else if s.len() == 0 {
        Seq::empty()
    } else if begins_with(s, pat) {
        by + replaced(s.skip(pat.len() as int), pat, by)
    } else {
        seq![s[0]] + replaced(s.drop_first(), pat, by)
    }
}

/// Replaces every occurrence of a text by another.
pub fn replace_all(s: &str, pat: &str, by: &str) -> (out: String)
    ensures
        out@ == replaced(s@, pat@, by@),
{
    let chars = chars_of(s);
    let pattern = chars_of(pat);
    let mut out = String::new();
    let mut i: usize = 0;
    proof {
        assert(s@.skip(0) =~= s@);
        assert(out@ + replaced(s@, pat@, by@) =~= replaced(s@, pat@, by@));
    }
    while i < chars.len()
        invariant
            chars@ == s@,
            pattern@ == pat@,
            i <= chars@.len(),
            out@ + replaced(s@.skip(i as int), pat@, by@) == replaced(s@, pat@, by@),
        decreases chars.len() - i,
    {
        let ghost rest = s@.skip(i as int);
        let ghost before = out@;
        if pattern.len() == 0 {
            out.append(by);
            out.push(chars[i]);
            proof {
                assert(rest.drop_first() =~= s@.skip(i + 1));
                assert(out@ + replaced(s@.skip(i + 1), pat@, by@) =~= before + replaced(
                    rest,
                    pat@,
                    by@,
                ));
            }
            i = i + 1;
        } else if occurs_at_chars(&chars, &pattern, i) {
            out.append(by);
            proof {
                assert(rest.take(pat@.len() as int) =~= s@.subrange(
                    i as int,
                    i + pat@.len(),
                ));
                assert(rest.skip(pat@.len() as int) =~= s@.skip(i + pat@.len()));
                assert(out@ + replaced(s@.skip(i + pat@.len()), pat@, by@) =~= before + replaced(
                    rest,
                    pat@,
                    by@,
                ));
            }
            i = i + pattern.len();
        } else {
            out.push(chars[i]);
            proof {
                if begins_with(rest, pat@) {
                    assert(rest.take(pat@.len() as int) =~= s@.subrange(
                        i as int,
                        i + pat@.len(),
                    ));
                }
                assert(rest.drop_first() =~= s@.skip(i + 1));
                assert(out@ + replaced(s@.skip(i + 1), pat@, by@) =~= before + replaced(
                    rest,
                    pat@,
                    by@,
                ));
            }
            i = i + 1;
        }
    }
    if pattern.len() == 0 {
        out.append(by);
    }
    proof {
        assert(out@ =~= replaced(s@, pat@, by@));
    }
    out
}

/// The texts of a list, one after the other.
pub open spec fn concat(list: Seq<Seq<char>>) -> Seq<char>
    decreases list.len(),
{
    if list.len() == 0 {
        Seq::empty()
    } else {
        concat(list.drop_last()) + list.last()
    }
}

/// How many bytes UTF-8 takes for `c`.
pub open spec fn utf8_width(c: char) -> nat {
    encode_scalar(c as u32).len()
}

/// How many bytes UTF-8 takes for `s`.
pub open spec fn utf8_len(s: Seq<char>) -> nat {
    encode_utf8(s).len()
}

/// The longest prefix of `s` whose UTF-8 encoding takes at most `budget` bytes.
pub open spec fn clipped(s: Seq<char>, budget: int) -> Seq<char>
    decreases s.len(),
{
    if s.len() > 0 && utf8_width(s[0]) <= budget {
        seq![s[0]] + clipped(s.drop_first(), budget - utf8_width(s[0]))
    } else {
        Seq::empty()
    }
}

/// Exactly the prefixes that a clipped text has are those that fit: it is a
/// prefix, it fits the budget, and no longer prefix does.
pub proof fn law_clipped_is_the_longest_fitting_prefix(s: Seq<char>, budget: int)
    requires
        budget >= 0,
    ensures
        clipped(s, budget).len() <= s.len(),
        clipped(s, budget) == s.take(clipped(s, budget).len() as int),
        utf8_len(clipped(s, budget)) <= budget,
        forall|k: int|
            clipped(s, budget).len() < k <= s.len() ==> utf8_len(#[trigger] s.take(k)) > budget,
    decreases s.len(),
{
    let c = clipped(s, budget);
    if s.len() > 0 && utf8_width(s[0]) <= budget {
        let rest = s.drop_first();
        let left = budget - utf8_width(s[0]);
        law_clipped_is_the_longest_fitting_prefix(rest, left);
        assert(c.drop_first() =~= clipped(rest, left));
        assert(c =~= s.take(c.len() as int));
        assert forall|k: int| c.len() < k <= s.len() implies utf8_len(#[trigger] s.take(k)) > budget by {
            assert(s.take(k).drop_first() =~= rest.take(k - 1));
        }
    } else {
        assert(c =~= s.take(0));
        assert forall|k: int| c.len() < k <= s.len() implies utf8_len(#[trigger] s.take(k)) > budget by {
            assert(s.take(k)[0] == s[0]);
        }
    }
}

/// A text that fits the budget is left whole.
pub proof fn lemma_clipped_whole(s: Seq<char>, budget: int)
    requires
        utf8_len(s) <= budget,
    ensures
        clipped(s, budget) == s,
{
    law_clipped_is_the_longest_fitting_prefix(s, budget);
    if clipped(s, budget).len() < s.len() {
        assert(s.take(s.len() as int) =~= s);
    }
    assert(clipped(s, budget) =~= s);
}

/// Truncates at a character boundary at or below `budget` bytes.
pub fn truncate_to_budget(text: &str, budget: usize) -> (head: &str)
    ensures
        head@ == clipped(text@, budget as int),
{
    let bytes = text.as_bytes();
    if bytes.len() <= budget {
        proof {
            lemma_clipped_whole(text@, budget as int);
        }
        return text;
    }
    let mut end: usize = budget;
    proof {
        vstd::utf8::encode_utf8_valid_utf8(text@);
        vstd::utf8::is_char_boundary_start_end_of_seq(text.spec_bytes());
    }
    while end > 0 && !text.is_char_boundary(end)
        invariant
            end <= budget < text.spec_bytes().len(),
            is_char_boundary(text.spec_bytes(), 0),
            forall|k: int|
                end < k <= budget ==> !#[trigger] is_char_boundary(text.spec_bytes(), k),
        decreases end,
    {
        end = end - 1;
    }
    let (head, _tail) = text.split_at(end);
    proof {
        lemma_boundary_prefix(text@, head@, end as int, budget as int);
    }
    head
}

proof fn lemma_encode_concat(a: Seq<char>, b: Seq<char>)
    ensures
        encode_utf8(a + b) == encode_utf8(a) + encode_utf8(b),
    decreases a.len(),
{
    if a.len() == 0 {
        assert(a + b =~= b);
        assert(encode_utf8(a) + encode_utf8(b) =~= encode_utf8(b));
    } else {
        lemma_encode_concat(a.drop_first(), b);
        assert((a + b).drop_first() =~= a.drop_first() + b);
        assert(encode_utf8(a + b) =~= encode_utf8(a) + encode_utf8(b));
    }
}

/// The end of every prefix is a character boundary of the encoding.
proof fn lemma_prefix_ends_on_boundary(s: Seq<char>, k: int)
    requires
        0 <= k <= s.len(),
    ensures
        is_char_boundary(encode_utf8(s), utf8_len(s.take(k)) as int),
    decreases s.len(),
{
    vstd::utf8::encode_utf8_valid_utf8(s);
    vstd::utf8::is_char_boundary_start_end_of_seq(encode_utf8(s));
    if k == 0 {
        assert(utf8_len(s.take(0)) == 0);
    } else {
        let rest = s.drop_first();
        lemma_prefix_ends_on_boundary(rest, k - 1);
        assert(s.take(k).drop_first() =~= rest.take(k - 1));
        assert(s.take(k)[0] == s[0]);
        vstd::utf8::encode_utf8_first_scalar(s);
        lemma_encode_concat(s.take(k), s.skip(k));
        assert(s.take(k) + s.skip(k) =~= s);
        assert(vstd::utf8::pop_first_scalar(encode_utf8(s)) =~= encode_utf8(rest));
    }
}

proof fn lemma_boundary_prefix(s: Seq<char>, head: Seq<char>, end: int, budget: int)
    requires
        0 <= end <= budget < utf8_len(s),
        encode_utf8(head) == encode_utf8(s).subrange(0, end),
        is_char_boundary(encode_utf8(s), end),
        forall|k: int| end < k <= budget ==> !#[trigger] is_char_boundary(encode_utf8(s), k),
    ensures
        head == clipped(s, budget),
{
    let bytes = encode_utf8(s);
    vstd::utf8::encode_utf8_valid_utf8(s);
    vstd::utf8::encode_utf8_decode_utf8(s);
    vstd::utf8::encode_utf8_decode_utf8(head);
    vstd::utf8::decode_utf8_split(bytes, end);
    let tail = vstd::utf8::decode_utf8(bytes.subrange(end, bytes.len() as int));
    assert(s == head + tail);
    assert(head =~= s.take(head.len() as int));
    law_clipped_is_the_longest_fitting_prefix(s, budget);
    let c = clipped(s, budget);
    lemma_prefix_ends_on_boundary(s, c.len() as int);
    assert(utf8_len(head) == end);
    if c.len() < head.len() {
        assert(utf8_len(s.take(head.len() as int)) > budget);
    }
    if head.len() < c.len() {
        assert(c.take(head.len() as int) =~= head);
        lemma_encode_concat(head, c.skip(head.len() as int));
        assert(head + c.skip(head.len() as int) =~= c);
        let extra = c.skip(head.len() as int);
        assert(extra.len() > 0);
        assert(utf8_len(extra) > 0);
    }
    assert(head =~= c);
}

/// The order of texts: by the first character in which they differ, a proper
/// prefix before its extensions.
pub open spec fn text_less(a: Seq<char>, b: Seq<char>) -> bool
    decreases a.len(),
{
    if b.len() == 0 {
        false
    } else if a.len() == 0 {
        true
    } else if a[0] != b[0] {
        a[0] < b[0]
    } else {
        text_less(a.drop_first(), b.drop_first())
    }
}

/// The order of texts is total: of two different texts one is less.
pub proof fn lemma_text_less_total(a: Seq<char>, b: Seq<char>)
    ensures
        a == b || text_less(a, b) || text_less(b, a),
    decreases a.len(),
{
    if a.len() == 0 && b.len() == 0 {
        assert(a =~= b);
    } else if a.len() > 0 && b.len() > 0 && a[0] == b[0] {
        lemma_text_less_total(a.drop_first(), b.drop_first());
        if a.drop_first() == b.drop_first() {
            assert(a =~= seq![a[0]] + a.drop_first());
            assert(b =~= seq![b[0]] + b.drop_first());
        }
    }
}

/// No text is less than itself.
pub proof fn lemma_text_less_irreflexive(a: Seq<char>)
    ensures
        !text_less(a, a),
    decreases a.len(),
{
    if a.len() > 0 {
        lemma_text_less_irreflexive(a.drop_first());
    }
}

/// The order of texts is transitive.
pub proof fn lemma_text_less_transitive(a: Seq<char>, b: Seq<char>, c: Seq<char>)
    requires
        text_less(a, b),
        text_less(b, c),
    ensures
        text_less(a, c),
    decreases a.len(),
{
    if a.len() > 0 && b.len() > 0 && c.len() > 0 && a[0] == b[0] && b[0] == c[0] {
        lemma_text_less_transitive(a.drop_first(), b.drop_first(), c.drop_first());
    }
}

/// How one text stands to another.
#[derive(Clone, Copy, PartialEq, Eq, Structural, Debug)]
pub enum TextOrder {
    Before,
    Same,
    After,
}

/// Compares two texts.
pub fn order_texts(a: &str, b: &str) -> (order: TextOrder)
    ensures
        order is Before <==> text_less(a@, b@),
        order is Same <==> a@ == b@,
        order is After <==> text_less(b@, a@),
{
    let x = chars_of(a);
    let y = chars_of(b);
    let mut i: usize = 0;
    proof {
        assert(a@.skip(0) =~= a@);
        assert(b@.skip(0) =~= b@);
        lemma_text_less_total(a@, b@);
        lemma_text_less_irreflexive(a@);
        lemma_text_less_irreflexive(b@);
        if text_less(a@, b@) && text_less(b@, a@) {
            lemma_text_less_transitive(a@, b@, a@);
        }
    }
    while i < x.len() && i < y.len()
        invariant
            x@ == a@,
            y@ == b@,
            i <= x@.len(),
            i <= y@.len(),
            text_less(a@, b@) == text_less(x@.skip(i as int), y@.skip(i as int)),
            text_less(b@, a@) == text_less(y@.skip(i as int), x@.skip(i as int)),
            a@ == b@ || text_less(a@, b@) || text_less(b@, a@),
            !(a@ == b@ && (text_less(a@, b@) || text_less(b@, a@))),
            !(text_less(a@, b@) && text_less(b@, a@)),
        decreases x.len() - i,
    {
        let c = x[i];
        let d = y[i];
        proof {
            assert(x@.skip(i as int)[0] == c);
            assert(y@.skip(i as int)[0] == d);
            assert(x@.skip(i as int).drop_first() =~= x@.skip(i + 1));
            assert(y@.skip(i as int).drop_first() =~= y@.skip(i + 1));
        }
        if c < d {
            return TextOrder::Before;
        }
        if d < c {
            return TextOrder::After;
        }
        i = i + 1;
    }
    if i < y.len() {
        TextOrder::Before
    } else if i < x.len() {
        TextOrder::After
    } else {
        TextOrder::Same
    }
}

/// Whether the texts ascend strictly, so that none occurs twice.
pub open spec fn ascending(list: Seq<Seq<char>>) -> bool {
    forall|i: int, j: int|
        0 <= i < j < list.len() ==> text_less(#[trigger] list[i], #[trigger] list[j])
}

/// Whether `list` holds exactly the texts of `all`, each once, in ascending
/// order.
pub open spec fn is_sorted_unique(list: Seq<Seq<char>>, all: Seq<Seq<char>>) -> bool {
    &&& ascending(list)
    &&& forall|t: Seq<char>| #[trigger] list.contains(t) <==> all.contains(t)
}

/// There is one way to sort: two ascending lists of the same texts are equal.
pub proof fn lemma_sorted_unique_determined(a: Seq<Seq<char>>, b: Seq<Seq<char>>, all: Seq<Seq<char>>)
    requires
        is_sorted_unique(a, all),
        is_sorted_unique(b, all),
    ensures
        a == b,
    decreases a.len(),
{
    if a.len() == 0 {
        if b.len() > 0 {
            assert(b.contains(b[0]));
            assert(a.contains(b[0]));
        }
        assert(a =~= b);
    } else {
        assert(a.contains(a[0]));
        assert(b.contains(a[0]));
        let j = choose|j: int| 0 <= j < b.len() && b[j] == a[0];
        assert(b.contains(b[0]));
        assert(a.contains(b[0]));
        let i = choose|i: int| 0 <= i < a.len() && a[i] == b[0];
        if i > 0 {
            assert(text_less(a[0], a[i]));
            if j > 0 {
                assert(text_less(b[0], b[j]));
                lemma_text_less_transitive(a[0], b[0], a[0]);
            }
            lemma_text_less_irreflexive(a[0]);
        }
        assert(a[0] == b[0]);
        let x = a.drop_first();
        let y = b.drop_first();
        assert forall|t: Seq<char>| #[trigger] x.contains(t) <==> y.contains(t) by {
            if x.contains(t) {
                let k = choose|k: int| 0 <= k < x.len() && x[k] == t;
                assert(a[k + 1] == t);
                assert(text_less(a[0], a[k + 1]));
                lemma_text_less_irreflexive(t);
                assert(a.contains(t));
                assert(b.contains(t));
                let m = choose|m: int| 0 <= m < b.len() && b[m] == t;
                assert(m > 0);
                assert(y[m - 1] == t);
            }
            if y.contains(t) {
                let k = choose|k: int| 0 <= k < y.len() && y[k] == t;
                assert(b[k + 1] == t);
                assert(text_less(b[0], b[k + 1]));
                lemma_text_less_irreflexive(t);
                assert(b.contains(t));
                assert(a.contains(t));
                let m = choose|m: int| 0 <= m < a.len() && a[m] == t;
                assert(m > 0);
                assert(x[m - 1] == t);
            }
        }
        assert(ascending(x)) by {
            assert forall|p: int, q: int| 0 <= p < q < x.len() implies text_less(
                #[trigger] x[p],
                #[trigger] x[q],
            ) by {
                assert(text_less(a[p + 1], a[q + 1]));
            }
        }
        assert(ascending(y)) by {
            assert forall|p: int, q: int| 0 <= p < q < y.len() implies text_less(
                #[trigger] y[p],
                #[trigger] y[q],
            ) by {
                assert(text_less(b[p + 1], b[q + 1]));
            }
        }
        lemma_sorted_unique_determined(x, y, y);
        assert(a =~= seq![a[0]] + x);
        assert(b =~= seq![b[0]] + y);
    }
}

/// The texts of `all`, each once, in ascending order.
pub open spec fn sorted_unique(all: Seq<Seq<char>>) -> Seq<Seq<char>> {
    choose|list: Seq<Seq<char>>| is_sorted_unique(list, all)
}

/// An ascending list that holds a text is sorted for itself and that text.
proof fn lemma_present_keeps_sorted(before: Seq<Seq<char>>, item: Seq<char>, i: int)
    requires
        ascending(before),
        0 <= i < before.len(),
        before[i] == item,
    ensures
        is_sorted_unique(before, before.push(item)),
{
    let all = before.push(item);
    assert forall|t: Seq<char>| #[trigger] before.contains(t) <==> all.contains(t) by {
        if before.contains(t) {
            let k = choose|k: int| 0 <= k < before.len() && before[k] == t;
            assert(all[k] == t);
        }
        if all.contains(t) {
            let k = choose|k: int| 0 <= k < all.len() && all[k] == t;
            if k < before.len() {
                assert(before[k] == t);
            }
        }
    }
}

/// A text put between the smaller and the greater ones keeps a list sorted.
proof fn lemma_insert_keeps_sorted(before: Seq<Seq<char>>, item: Seq<char>, i: int)
    requires
        ascending(before),
        0 <= i <= before.len(),
        forall|k: int| 0 <= k < i ==> text_less(#[trigger] before[k], item),
        i < before.len() ==> text_less(item, before[i]),
    ensures
        is_sorted_unique(before.insert(i, item), before.push(item)),
{
    let all = before.push(item);
    let after = before.insert(i, item);
    assert forall|k: int| i <= k < before.len() implies text_less(item, #[trigger] before[k]) by {
        if k > i {
            assert(text_less(before[i], before[k]));
            lemma_text_less_transitive(item, before[i], before[k]);
        }
    }
    assert forall|p: int, q: int| 0 <= p < q < after.len() implies text_less(
        #[trigger] after[p],
        #[trigger] after[q],
    ) by {
        if p < i && q < i {
            assert(text_less(before[p], before[q]));
        } else if p < i && q == i {
            assert(text_less(before[p], item));
        } else if p < i {
            assert(text_less(before[p], before[q - 1]));
        } else if p == i {
            assert(text_less(item, before[q - 1]));
        } else {
            assert(text_less(before[p - 1], before[q - 1]));
        }
    }
    assert forall|t: Seq<char>| #[trigger] after.contains(t) <==> all.contains(t) by {
        if after.contains(t) {
            let k = choose|k: int| 0 <= k < after.len() && after[k] == t;
            if k < i {
                assert(all[k] == t);
            } else if k == i {
                assert(all[before.len() as int] == t);
            } else {
                assert(all[k - 1] == t);
            }
        }
        if all.contains(t) {
            let k = choose|k: int| 0 <= k < all.len() && all[k] == t;
            if k == before.len() {
                assert(after[i] == t);
            } else if k < i {
                assert(after[k] == t);
            } else {
                assert(after[k + 1] == t);
            }
        }
    }
}

/// The first place of an ascending list whose text is not smaller.
proof fn lemma_place(list: Seq<Seq<char>>, item: Seq<char>, from: int) -> (i: int)
    requires
        0 <= from <= list.len(),
        forall|k: int| 0 <= k < from ==> text_less(#[trigger] list[k], item),
    ensures
        0 <= i <= list.len(),
        forall|k: int| 0 <= k < i ==> text_less(#[trigger] list[k], item),
        i < list.len() ==> list[i] == item || text_less(item, list[i]),
    decreases list.len() - from,
{
    if from < list.len() && text_less(list[from], item) {
        lemma_place(list, item, from + 1)
    } else {
        if from < list.len() {
            lemma_text_less_total(list[from], item);
        }
        from
    }
}

/// Every list of texts has its sorted form.
pub proof fn lemma_sorted_unique_exists(all: Seq<Seq<char>>)
    ensures
        is_sorted_unique(sorted_unique(all), all),
    decreases all.len(),
{
    if all.len() == 0 {
        assert(is_sorted_unique(all, all));
    } else {
        let rest = all.drop_last();
        let item = all.last();
        lemma_sorted_unique_exists(rest);
        let list = sorted_unique(rest);
        let i = lemma_place(list, item, 0);
        let more = if i < list.len() && list[i] == item {
            lemma_present_keeps_sorted(list, item, i);
            list
        } else {
            lemma_insert_keeps_sorted(list, item, i);
            list.insert(i, item)
        };
        assert(is_sorted_unique(more, list.push(item)));
        assert forall|t: Seq<char>| #[trigger] more.contains(t) <==> all.contains(t) by {
            if more.contains(t) {
                assert(list.push(item).contains(t));
                let k = choose|k: int| 0 <= k < list.push(item).len() && list.push(item)[k] == t;
                if k < list.len() {
                    assert(list[k] == t);
                    assert(list.contains(t));
                    assert(rest.contains(t));
                    let m = choose|m: int| 0 <= m < rest.len() && rest[m] == t;
                    assert(all[m] == t);
                } else {
                    assert(all[all.len() - 1] == t);
                }
            }
            if all.contains(t) {
                let k = choose|k: int| 0 <= k < all.len() && all[k] == t;
                if k < rest.len() {
                    assert(rest[k] == t);
                    assert(rest.contains(t));
                    assert(list.contains(t));
                    let m = choose|m: int| 0 <= m < list.len() && list[m] == t;
                    assert(list.push(item)[m] == t);
                } else {
                    assert(list.push(item)[list.len() as int] == t);
                }
                assert(list.push(item).contains(t));
            }
        }
        assert(is_sorted_unique(more, all));
    }
}

/// Puts `item` into its place in an ascending list, unless it is there.
fn insert_sorted(list: &mut Vec<String>, item: String)
    requires
        ascending(views(old(list)@)),
    ensures
        is_sorted_unique(views(final(list)@), views(old(list)@).push(item@)),
{
    let ghost before = views(list@);
    let mut i: usize = 0;
    while i < list.len()
        invariant
            before == views(list@),
            before == views(old(list)@),
            ascending(before),
            i <= list@.len(),
            forall|k: int| 0 <= k < i ==> text_less(#[trigger] before[k], item@),
        ensures
            i < before.len() ==> text_less(item@, before[i as int]),
        decreases list.len() - i,
    {
        match order_texts(list[i].as_str(), item.as_str()) {
            TextOrder::Before => {
                i = i + 1;
            },
            TextOrder::Same => {
                proof {
                    lemma_present_keeps_sorted(before, item@, i as int);
                }
                return ;
            },
            TextOrder::After => {
                break ;
            },
        }
    }
    list.insert(i, item);
    proof {
        assert(views(list@) =~= before.insert(i as int, item@));
        lemma_insert_keeps_sorted(before, item@, i as int);
    }
}

/// Sorts texts and drops repetitions.
pub fn sort_unique(list: Vec<String>) -> (sorted: Vec<String>)
    ensures
        is_sorted_unique(views(sorted@), views(list@)),
        views(sorted@) == sorted_unique(views(list@)),
{
    let mut sorted: Vec<String> = Vec::new();
    let mut i: usize = 0;
    let ghost all = views(list@);
    while i < list.len()
        invariant
            all == views(list@),
            i <= list@.len(),
            is_sorted_unique(views(sorted@), all.take(i as int)),
        decreases list.len() - i,
    {
        let ghost before = views(sorted@);
        let item = list[i].clone();
        insert_sorted(&mut sorted, item);
        proof {
            let prefix = all.take(i as int);
            let longer = all.take(i + 1);
            assert(longer =~= prefix.push(all[i as int]));
            let now = views(sorted@);
            assert forall|t: Seq<char>| #[trigger] now.contains(t) <==> longer.contains(t) by {
                let pushed = before.push(all[i as int]);
                assert(now.contains(t) <==> pushed.contains(t));
                if pushed.contains(t) {
                    let k = choose|k: int| 0 <= k < pushed.len() && pushed[k] == t;
                    if k < before.len() {
                        assert(before.contains(t));
                        let m = choose|m: int| 0 <= m < prefix.len() && prefix[m] == t;
                        assert(longer[m] == t);
                    } else {
                        assert(longer[i as int] == t);
                    }
                }
                if longer.contains(t) {
                    let k = choose|k: int| 0 <= k < longer.len() && longer[k] == t;
                    if k < i {
                        assert(prefix[k] == t);
                        assert(prefix.contains(t));
                        assert(before.contains(t));
                        let m = choose|m: int| 0 <= m < before.len() && before[m] == t;
                        assert(pushed[m] == t);
                    } else {
                        assert(pushed[before.len() as int] == t);
                    }
                }
            }
        }
        i = i + 1;
    }
    proof {
        assert(all.take(all.len() as int) =~= all);
        lemma_sorted_unique_determined(views(sorted@), sorted_unique(all), all);
    }
    sorted
}

/// The text that std's `Debug` formatting makes of a string: quoted, with the
/// characters escaped that `char::escape_debug` escapes.
pub uninterp spec fn debug_text(s: Seq<char>) -> Seq<char>;

/// `format!` with `{:?}` on a string slice. The result is a function of the
/// characters alone; which escapes it holds is not spelled out here.
#[verifier::external_body]
pub(crate) fn debug_of(s: &str) -> (quoted: String)
    ensures
        quoted@ == debug_text(s@),
{
    format!("{s:?}")
}

/// A copy of a list of texts.
pub fn clone_texts(list: &Vec<String>) -> (copy: Vec<String>)
    ensures
        views(copy@) == views(list@),
{
    let mut copy: Vec<String> = Vec::new();
    let mut i: usize = 0;
    while i < list.len()
        invariant
            i <= list@.len(),
            views(copy@) == views(list@).take(i as int),
        decreases list.len() - i,
    {
        let item = list[i].clone();
        proof {
            lemma_views_push(copy@, item);
            assert(views(list@).take(i + 1) =~= views(list@).take(i as int).push(item@));
        }
        copy.push(item);
        i = i + 1;
    }
    proof {
        assert(views(copy@) =~= views(list@));
    }
    copy
}

/// A copy of an optional text.
pub fn clone_option(item: &Option<String>) -> (copy: Option<String>)
    ensures
        option_view(copy) == option_view(*item),
{
    match item {
        Some(s) => Some(s.clone()),
        None => None,
    }
}

/// Appends the decimal digits of a count.
pub fn push_count(out: &mut String, n: usize)
    ensures
        final(out)@ == old(out)@ + decimal(n as nat),
{
    push_decimal(out, n as u64);
}

/// Trimming takes white space off both ends and nothing else: what is left is a
/// part of the text, all around it is white, and neither of its ends is. Blanks,
/// tabs and line ends are white; no visible ASCII character is.
pub proof fn law_trimming_takes_only_white_space(s: Seq<char>, c: char)
    ensures
        exists|a: int, b: int|
            0 <= a <= b <= s.len() && trimmed(s) == #[trigger] s.subrange(a, b) && (forall|i: int|
                0 <= i < a || b <= i < s.len() ==> is_white(#[trigger] s[i])) && (a < b ==> !is_white(
                s[a],
            ) && !is_white(s[b - 1])),
        '!' <= c <= '~' ==> !is_white(c),
        c == ' ' || '\u{9}' <= c <= '\u{d}' ==> is_white(c),
{
    let a = lemma_trim_start(s);
    let t = trim_start(s);
    let n = lemma_trim_end(t);
    let b = a + n;
    assert(trimmed(s) =~= s.subrange(a, b));
    assert forall|i: int| 0 <= i < a || b <= i < s.len() implies is_white(#[trigger] s[i]) by {
        if b <= i {
            assert(t[i - a] == s[i]);
        }
    }
    if a < b {
        assert(t[0] == s[a]);
        assert(t[n - 1] == s[b - 1]);
    }
}

proof fn lemma_trim_start(s: Seq<char>) -> (a: int)
    ensures
        0 <= a <= s.len(),
        trim_start(s) == s.skip(a),
        forall|i: int| 0 <= i < a ==> is_white(#[trigger] s[i]),
        a < s.len() ==> !is_white(s[a]),
    decreases s.len(),
{
    if s.len() > 0 && is_white(s.first()) {
        let rest = s.drop_first();
        let a = lemma_trim_start(rest);
        assert(s.skip(a + 1) =~= rest.skip(a));
        assert forall|i: int| 0 <= i < a + 1 implies is_white(#[trigger] s[i]) by {
            if i > 0 {
                assert(rest[i - 1] == s[i]);
            }
        }
        if a < rest.len() {
            assert(rest[a] == s[a + 1]);
        }
        a + 1
    } else {
        assert(s.skip(0) =~= s);
        0
    }
}

proof fn lemma_trim_end(s: Seq<char>) -> (n: int)
    ensures
        0 <= n <= s.len(),
        trim_end(s) == s.take(n),
        forall|i: int| n <= i < s.len() ==> is_white(#[trigger] s[i]),
        n > 0 ==> !is_white(s[n - 1]),
    decreases s.len(),
{
    if s.len() > 0 && is_white(s.last()) {
        let rest = s.drop_last();
        let n = lemma_trim_end(rest);
        assert(s.take(n) =~= rest.take(n));
        assert forall|i: int| n <= i < s.len() implies is_white(#[trigger] s[i]) by {
            if i < rest.len() {
                assert(rest[i] == s[i]);
            }
        }
        n
    } else {
        assert(s.take(s.len() as int) =~= s);
        s.len() as int
    }
}

/// What a number is written as reads back as that number, whatever it is, and is
/// made of digits alone, the first of them no zero but for zero itself.
pub proof fn law_numbers_read_back(n: u64)
    ensures
        parsed_u64(decimal(n as nat)) == Some(n),
        forall|i: int|
            0 <= i < decimal(n as nat).len() ==> '0' <= #[trigger] decimal(n as nat)[i] <= '9',
        n > 0 ==> decimal(n as nat)[0] != '0',
{
    lemma_decimal_digits(n as nat);
    lemma_decimal_value(n as nat);
    assert(is_digit(decimal(n as nat)[0]));
}

proof fn lemma_decimal_digits(n: nat)
    ensures
        decimal(n).len() > 0,
        all_digits(decimal(n)),
        n > 0 ==> decimal(n)[0] != '0',
    decreases n,
{
    if n >= 10 {
        lemma_decimal_digits(n / 10);
        let head = decimal(n / 10);
        assert forall|i: int| 0 <= i < decimal(n).len() implies is_digit(#[trigger] decimal(n)[i]) by {
            if i < head.len() {
                assert(is_digit(head[i]));
            }
        }
    }
}

/// A digit more makes a number ten times as large, and the digit larger.
pub proof fn law_digits_count_in_tens(s: Seq<char>, d: nat)
    requires
        d < 10,
    ensures
        digits_value(s.push(digit_char(d))) == 10 * digits_value(s) + d,
        digits_value(Seq::<char>::empty()) == 0,
{
    assert(s.push(digit_char(d)).drop_last() =~= s);
}

/// A text begins with another exactly if it is that one and something behind it;
/// and it holds another exactly if it is something, that one, and something.
pub proof fn law_parts_of_a_text(s: Seq<char>, part: Seq<char>)
    ensures
        begins_with(s, part) <==> exists|rest: Seq<char>| s == #[trigger] (part + rest),
        holds_text(s, part) <==> exists|head: Seq<char>, rest: Seq<char>|
            s == #[trigger] (head + part + rest),
{
    if begins_with(s, part) {
        assert(s =~= part + s.skip(part.len() as int));
    }
    if exists|rest: Seq<char>| s == #[trigger] (part + rest) {
        let rest = choose|rest: Seq<char>| s == #[trigger] (part + rest);
        assert(s.take(part.len() as int) =~= part);
    }
    if holds_text(s, part) {
        let at = choose|at: int| occurs_at(s, part, at);
        assert(s =~= s.take(at) + part + s.skip(at + part.len()));
    }
    if exists|head: Seq<char>, rest: Seq<char>| s == #[trigger] (head + part + rest) {
        let (head, rest) = choose|head: Seq<char>, rest: Seq<char>|
            s == #[trigger] (head + part + rest);
        let at = head.len() as int;
        assert(s.subrange(at, at + part.len()) =~= part);
        assert(occurs_at(s, part, at));
    }
}

/// Joining puts the separator between each two texts and nowhere else.
pub proof fn law_joining_separates(list: Seq<Seq<char>>, item: Seq<char>, sep: Seq<char>)
    ensures
        joined(Seq::<Seq<char>>::empty(), sep).len() == 0,
        joined(seq![item], sep) == item,
        list.len() > 0 ==> joined(list.push(item), sep) == joined(list, sep) + sep + item,
{
    assert(list.push(item).drop_last() =~= list);
}

/// Replacing changes nothing in a text without the pattern. In any other, what
/// stands before the first occurrence is kept, the occurrence is replaced, and
/// what follows is treated in the same way.
pub proof fn law_replacing_goes_from_left_to_right(
    s: Seq<char>,
    pat: Seq<char>,
    by: Seq<char>,
    at: int,
)
    requires
        pat.len() > 0,
        forall|k: int| 0 <= k < at ==> !#[trigger] occurs_at(s, pat, k),
    ensures
        !holds_text(s, pat) ==> replaced(s, pat, by) == s,
        occurs_at(s, pat, at) ==> replaced(s, pat, by) == s.take(at) + by + replaced(
            s.skip(at + pat.len()),
            pat,
            by,
        ),
    decreases s.len(),
{
    if s.len() > 0 {
        let rest = s.drop_first();
        if begins_with(s, pat) {
            assert(s.subrange(0, pat.len() as int) =~= s.take(pat.len() as int));
            assert(occurs_at(s, pat, 0));
            if occurs_at(s, pat, at) {
                assert(at == 0);
                assert(s.take(0) + by =~= by);
            }
        } else {
            assert forall|k: int| 0 <= k < at - 1 implies !#[trigger] occurs_at(rest, pat, k) by {
                if occurs_at(rest, pat, k) {
                    assert(s.subrange(k + 1, k + 1 + pat.len()) =~= rest.subrange(k, k + pat.len()));
                    assert(occurs_at(s, pat, k + 1));
                }
            }
            law_replacing_goes_from_left_to_right(rest, pat, by, at - 1);
            if !holds_text(s, pat) {
                if holds_text(rest, pat) {
                    let k = choose|k: int| occurs_at(rest, pat, k);
                    assert(s.subrange(k + 1, k + 1 + pat.len()) =~= rest.subrange(k, k + pat.len()));
                    assert(occurs_at(s, pat, k + 1));
                }
                assert(seq![s[0]] + rest =~= s);
            }
            if occurs_at(s, pat, at) {
                if at == 0 {
                    assert(s.take(pat.len() as int) =~= s.subrange(0, pat.len() as int));
                }
                assert(rest.subrange(at - 1, at - 1 + pat.len()) =~= s.subrange(
                    at,
                    at + pat.len(),
                ));
                assert(rest.skip(at - 1 + pat.len()) =~= s.skip(at + pat.len()));
                assert(seq![s[0]] + (rest.take(at - 1) + by + replaced(
                    s.skip(at + pat.len()),
                    pat,
                    by,
                )) =~= s.take(at) + by + replaced(s.skip(at + pat.len()), pat, by));
            }
        }
    }
}

/// One text is less than another exactly if, behind what they share, it ends
/// first or goes on with a smaller character.
pub proof fn law_texts_are_ordered_by_their_first_difference(a: Seq<char>, b: Seq<char>)
    ensures
        text_less(a, b) <==> exists|k: int|
            0 <= k <= a.len() && k < b.len() && #[trigger] a.take(k) == b.take(k) && (k == a.len()
                || a[k] < b[k]),
    decreases a.len(),
{
    if b.len() > 0 && a.len() > 0 {
        let x = a.drop_first();
        let y = b.drop_first();
        law_texts_are_ordered_by_their_first_difference(x, y);
        if a[0] == b[0] && text_less(x, y) {
            let k = choose|k: int|
                0 <= k <= x.len() && k < y.len() && #[trigger] x.take(k) == y.take(k) && (k
                    == x.len() || x[k] < y[k]);
            assert(a.take(k + 1) =~= seq![a[0]] + x.take(k));
            assert(b.take(k + 1) =~= seq![b[0]] + y.take(k));
            assert(a.take(k + 1) == b.take(k + 1));
        }
        if a[0] < b[0] {
            assert(a.take(0) =~= b.take(0));
        }
        if exists|k: int|
            0 <= k <= a.len() && k < b.len() && #[trigger] a.take(k) == b.take(k) && (k == a.len()
                || a[k] < b[k]) {
            let k = choose|k: int|
                0 <= k <= a.len() && k < b.len() && #[trigger] a.take(k) == b.take(k) && (k
                    == a.len() || a[k] < b[k]);
            if k > 0 {
                assert(a.take(k)[0] == b.take(k)[0]);
                assert(x.take(k - 1) =~= a.take(k).drop_first());
                assert(y.take(k - 1) =~= b.take(k).drop_first());
                assert(x.take(k - 1) == y.take(k - 1));
            }
        }
    } else if b.len() > 0 {
        assert(a.take(0) =~= b.take(0));
    }
}

/// Sorting keeps every text, once, and nothing else; each comes before all those
/// that are greater.
pub proof fn law_sorting_keeps_every_text_once(all: Seq<Seq<char>>, i: int, j: int)
    ensures
        0 <= i < all.len() ==> sorted_unique(all).contains(all[i]),
        0 <= i < sorted_unique(all).len() ==> all.contains(sorted_unique(all)[i]),
        0 <= i < j < sorted_unique(all).len() ==> sorted_unique(all)[i] != sorted_unique(all)[j]
            && text_less(sorted_unique(all)[i], sorted_unique(all)[j]),
{
    lemma_sorted_unique_exists(all);
    let list = sorted_unique(all);
    if 0 <= i < all.len() {
        assert(all.contains(all[i]));
    }
    if 0 <= i < list.len() {
        assert(list.contains(list[i]));
    }
    if 0 <= i < j < list.len() {
        lemma_text_less_irreflexive(list[i]);
    }
}

/// Whether texts stand in another one after the other, in their order and
/// without overlap.
pub open spec fn shows_in_order(text: Seq<char>, parts: Seq<Seq<char>>) -> bool {
    exists|at: Seq<int>| #[trigger] stands_at(text, parts, at)
}

/// Whether each of the parts stands at its place, behind those before it.
pub open spec fn stands_at(text: Seq<char>, parts: Seq<Seq<char>>, at: Seq<int>) -> bool {
    &&& at.len() == parts.len()
    &&& forall|i: int| 0 <= i < parts.len() ==> occurs_at(text, parts[i], #[trigger] at[i])
    &&& forall|i: int, j: int|
        0 <= i < j < parts.len() ==> #[trigger] at[i] + parts[i].len() <= #[trigger] at[j]
}

/// Putting texts together keeps each of them, between those before and those
/// behind it.
pub proof fn lemma_concat_split(list: Seq<Seq<char>>, i: int)
    requires
        0 <= i < list.len(),
    ensures
        concat(list) == concat(list.take(i)) + list[i] + concat(list.skip(i + 1)),
    decreases list.len(),
{
    if i == list.len() - 1 {
        assert(list.take(i) =~= list.drop_last());
        assert(list.skip(i + 1) =~= Seq::<Seq<char>>::empty());
        assert(concat(list) =~= concat(list.take(i)) + list[i] + concat(list.skip(i + 1)));
    } else {
        let rest = list.drop_last();
        lemma_concat_split(rest, i);
        assert(rest.take(i) =~= list.take(i));
        assert(list.skip(i + 1).drop_last() =~= rest.skip(i + 1));
        assert(list.skip(i + 1).last() == list.last());
        assert(concat(list) =~= concat(list.take(i)) + list[i] + concat(list.skip(i + 1)));
    }
}

proof fn lemma_concat_grows(list: Seq<Seq<char>>, i: int, j: int)
    requires
        0 <= i < j <= list.len(),
    ensures
        concat(list.take(i)).len() + list[i].len() <= concat(list.take(j)).len(),
{
    let head = list.take(j);
    lemma_concat_split(head, i);
    assert(head.take(i) =~= list.take(i));
}

/// Texts that are put together, with anything around, show in order.
pub proof fn lemma_concat_shows(before: Seq<char>, parts: Seq<Seq<char>>, after: Seq<char>)
    ensures
        shows_in_order(before + concat(parts) + after, parts),
        forall|i: int|
            0 <= i < parts.len() ==> holds_text(before + concat(parts) + after, #[trigger] parts[i]),
{
    let text = before + concat(parts) + after;
    let at = Seq::new(
        parts.len(),
        |i: int| (before.len() + concat(parts.take(i)).len()) as int,
    );
    assert forall|i: int| 0 <= i < parts.len() implies occurs_at(text, parts[i], #[trigger] at[i]) by {
        lemma_concat_split(parts, i);
        assert(text.subrange(at[i], at[i] + parts[i].len()) =~= parts[i]);
    }
    assert forall|i: int, j: int| 0 <= i < j < parts.len() implies #[trigger] at[i] + parts[i].len()
        <= #[trigger] at[j] by {
        lemma_concat_grows(parts, i, j);
    }
    assert(stands_at(text, parts, at));
    assert forall|i: int| 0 <= i < parts.len() implies holds_text(text, #[trigger] parts[i]) by {
        assert(occurs_at(text, parts[i], at[i]));
    }
}

/// A text that holds another still does with more around it.
pub proof fn lemma_holds_in_more(before: Seq<char>, mid: Seq<char>, after: Seq<char>, part: Seq<char>)
    requires
        holds_text(mid, part),
    ensures
        holds_text(before + mid + after, part),
{
    let at = choose|at: int| occurs_at(mid, part, at);
    let whole = before + mid + after;
    let p = before.len() + at;
    assert(whole.subrange(p, p + part.len()) =~= mid.subrange(at, at + part.len()));
    assert(occurs_at(whole, part, p));
}

/// Each text of a joined list shows in the whole.
pub proof fn lemma_joined_shows(list: Seq<Seq<char>>, sep: Seq<char>, i: int)
    requires
        0 <= i < list.len(),
    ensures
        holds_text(joined(list, sep), list[i]),
    decreases list.len(),
{
    let none = Seq::<char>::empty();
    if list.len() == 1 {
        lemma_shown_between(none, list[i], none);
        assert(joined(list, sep) =~= none + list[i] + none);
    } else if i == list.len() - 1 {
        lemma_shown_between(joined(list.drop_last(), sep) + sep, list[i], none);
        assert(joined(list, sep) =~= (joined(list.drop_last(), sep) + sep) + list[i] + none);
    } else {
        lemma_joined_shows(list.drop_last(), sep, i);
        assert(list.drop_last()[i] == list[i]);
        lemma_holds_in_more(none, joined(list.drop_last(), sep), sep + list.last(), list[i]);
        assert(joined(list, sep) =~= none + joined(list.drop_last(), sep) + (sep + list.last()));
    }
}

/// A text shows in what is made of it and of what stands before and behind it.
pub proof fn lemma_shown_between(before: Seq<char>, part: Seq<char>, after: Seq<char>)
    ensures
        holds_text(before + part + after, part),
{
    let whole = before + part + after;
    let at = before.len() as int;
    assert(whole.subrange(at, at + part.len()) =~= part);
    assert(occurs_at(whole, part, at));
}

/// The characters that are white, by their numbers in Unicode.
pub proof fn law_white_characters_by_number(c: char)
    ensures
        is_white(c) <==> (9 <= c as u32 <= 13 || c as u32 == 32 || c as u32 == 133 || c as u32
            == 160 || c as u32 == 5760 || 8192 <= c as u32 <= 8202 || c as u32 == 8232 || c as u32
            == 8233 || c as u32 == 8239 || c as u32 == 8287 || c as u32 == 12288),
{
}

/// A number may have a plus sign before it. What holds anything but digits is no
/// number, nor is nothing at all, nor what is too large.
pub proof fn law_only_digits_are_numbers(s: Seq<char>, n: u64, large: nat, i: int)
    ensures
        parsed_u64(seq!['+'] + decimal(n as nat)) == Some(n),
        large > u64::MAX ==> parsed_u64(decimal(large)) is None,
        s.len() == 0 ==> parsed_u64(s) is None,
        0 < i < s.len() && !('0' <= s[i] <= '9') ==> parsed_u64(s) is None,
        s.len() > 0 && s[0] != '+' && !('0' <= s[0] <= '9') ==> parsed_u64(s) is None,
        s.len() == 1 && s[0] == '+' ==> parsed_u64(s) is None,
{
    law_numbers_read_back(n);
    let digits = decimal(n as nat);
    lemma_decimal_digits(n as nat);
    assert(without_plus(seq!['+'] + digits) =~= digits);
    assert(without_plus(digits) == digits);
    lemma_decimal_digits(large);
    lemma_decimal_value(large);
    assert(without_plus(decimal(large)) == decimal(large)) by {
        assert(is_digit(decimal(large)[0]));
    }
    if 0 < i < s.len() && !('0' <= s[i] <= '9') {
        let rest = without_plus(s);
        if s[0] == '+' {
            assert(rest[i - 1] == s[i]);
        } else {
            assert(rest[i] == s[i]);
        }
    }
    if s.len() > 0 && s[0] != '+' && !('0' <= s[0] <= '9') {
        assert(without_plus(s)[0] == s[0]);
    }
}

/// A number below zero is written with a minus sign before its size.
pub proof fn law_signed_numbers_have_their_sign(n: nat)
    ensures
        signed_decimal(n as int) == decimal(n),
        n > 0 ==> signed_decimal(-(n as int)) == seq!['-'] + decimal(n),
{
}

} // verus!
