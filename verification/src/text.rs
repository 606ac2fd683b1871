//! Text primitives shared by the supervisor and the forwarding handler.
//!
//! Every function here is specified over the sequence of characters that a
//! string denotes, so the contracts read the same for `&str` and `String`.

use vstd::prelude::*;

verus! {

/// The characters of an optional string.
pub open spec fn option_text(text: Option<String>) -> Option<Seq<char>> {
    match text {
        Some(t) => Some(t@),
        None => None,
    }
}

/// The characters of a string that may stand in place of an error.
pub open spec fn result_text<E>(text: Result<String, E>) -> Result<Seq<char>, E> {
    match text {
        Ok(t) => Ok(t@),
        Err(error) => Err(error),
    }
}

/// Whether `c` carries the Unicode `White_Space` property.
pub open spec fn is_space(c: char) -> bool {
    let u = c as u32;
    ||| (0x09 <= u && u <= 0x0d)
    ||| u == 0x20
    ||| u == 0x85
    ||| u == 0xa0
    ||| u == 0x1680
    ||| (0x2000 <= u && u <= 0x200a)
    ||| u == 0x2028
    ||| u == 0x2029
    ||| u == 0x202f
    ||| u == 0x205f
    ||| u == 0x3000
}

/// `s` without its leading white space.
pub open spec fn skip_leading(s: Seq<char>) -> Seq<char>
    decreases s.len(),
{
    if s.len() > 0 && is_space(s[0]) {
        skip_leading(s.drop_first())
    } else {
        s
    }
}

/// `s` without its trailing white space.
pub open spec fn skip_trailing(s: Seq<char>) -> Seq<char>
    decreases s.len(),
{
    if s.len() > 0 && is_space(s.last()) {
        skip_trailing(s.drop_last())
    } else {
        s
    }
}

/// `s` without the white space at either end.
pub open spec fn trimmed(s: Seq<char>) -> Seq<char> {
    skip_trailing(skip_leading(s))
}

/// Whether `needle` occurs in `hay` starting at index `at`.
pub open spec fn occurs_at(hay: Seq<char>, needle: Seq<char>, at: int) -> bool {
    &&& 0 <= at
    &&& at + needle.len() <= hay.len()
    &&& hay.subrange(at, at + needle.len()) == needle
}

/// Whether `needle` occurs somewhere in `hay` as a contiguous run.
pub open spec fn contains(hay: Seq<char>, needle: Seq<char>) -> bool {
    exists|at: int| occurs_at(hay, needle, at)
}

/// What follows the last occurrence of `sep` in `s`; all of `s` where `sep`
/// does not occur.
pub open spec fn after_last(s: Seq<char>, sep: char) -> Seq<char>
    decreases s.len(),
{
    if s.len() == 0 {
        s
    } else if s.last() == sep {
        Seq::empty()
    } else {
        after_last(s.drop_last(), sep).push(s.last())
    }
}

/// Whether `c` is one of the ASCII digits `0` to `9`.
pub open spec fn is_digit(c: char) -> bool {
    0x30 <= c as u32 && c as u32 <= 0x39
}

/// The value of the ASCII digit `c`.
pub open spec fn digit_value(c: char) -> nat {
    (c as u32 - 0x30) as nat
}

/// Whether `s` consists of ASCII digits only.
pub open spec fn all_digits(s: Seq<char>) -> bool {
    forall|i: int| 0 <= i < s.len() ==> is_digit(#[trigger] s[i])
}

/// The number that the digit string `s` writes in base ten.
pub open spec fn decimal_value(s: Seq<char>) -> nat
    decreases s.len(),
{
    if s.len() == 0 {
        0
    } else {
        decimal_value(s.drop_last()) * 10 + digit_value(s.last())
    }
}

/// `s` without one leading plus sign, if it has one.
pub open spec fn unsigned_part(s: Seq<char>) -> Seq<char> {
    if s.len() > 0 && s[0] == '+' {
        s.drop_first()
    } else {
        s
    }
}

/// The 16-bit number that `s` writes: an optional plus sign, then one or more
/// ASCII digits whose value fits. `None` for every other text.
pub open spec fn parse_u16(s: Seq<char>) -> Option<u16> {
    let digits = unsigned_part(s);
    if digits.len() > 0 && all_digits(digits) && decimal_value(digits) <= u16::MAX {
        Some(decimal_value(digits) as u16)
    } else {
        None
    }
}

/// The ASCII digit that writes `d`.
pub open spec fn digit_char(d: nat) -> char
    recommends
        d < 10,
{
    (0x30 + d) as u8 as char
}

/// `n` written in base ten, without leading zeros.
pub open spec fn decimal(n: nat) -> Seq<char>
    decreases n,
{
    if n < 10 {
        seq![digit_char(n)]
    } else {
        decimal(n / 10).push(digit_char(n % 10))
    }
}

/// The characters of `s`, in order.
pub fn chars_of(s: &str) -> (out: Vec<char>)
    ensures
        out@ == s@,
{
    let mut out: Vec<char> = Vec::new();
    for c in iter: s.chars()
        invariant
            iter.seq() == s@,
            out@ == s@.take(iter.index() as int),
    {
        out.push(c);
    }
    out
}

/// Tests a character for the Unicode `White_Space` property.
pub fn is_whitespace(c: char) -> (b: bool)
    ensures
        b == is_space(c),
{
    let u: u32 = c as u32;
    (0x09 <= u && u <= 0x0d) || u == 0x20 || u == 0x85 || u == 0xa0 || u == 0x1680 || (0x2000 <= u
        && u <= 0x200a) || u == 0x2028 || u == 0x2029 || u == 0x202f || u == 0x205f || u == 0x3000
}

/// Dropping leading white space from a range of `s` leaves the range that
/// starts at its first character that is not white space.
proof fn lemma_skip_leading_range(s: Seq<char>, from: int, mid: int, to: int)
    requires
        0 <= from <= mid <= to <= s.len(),
        forall|i: int| from <= i < mid ==> is_space(#[trigger] s[i]),
        mid == to || !is_space(s[mid]),
    ensures
        skip_leading(s.subrange(from, to)) == s.subrange(mid, to),
    decreases mid - from,
{
    let range = s.subrange(from, to);
    if from < mid {
        assert(range[0] == s[from]);
        assert(range.drop_first() == s.subrange(from + 1, to));
        lemma_skip_leading_range(s, from + 1, mid, to);
    } else if mid < to {
        assert(range[0] == s[mid]);
    }
}

/// Dropping trailing white space from a range of `s` leaves the range that
/// ends behind its last character that is not white space.
proof fn lemma_skip_trailing_range(s: Seq<char>, from: int, mid: int, to: int)
    requires
        0 <= from <= mid <= to <= s.len(),
        forall|i: int| mid <= i < to ==> is_space(#[trigger] s[i]),
        mid == from || !is_space(s[mid - 1]),
    ensures
        skip_trailing(s.subrange(from, to)) == s.subrange(from, mid),
    decreases to - mid,
{
    let range = s.subrange(from, to);
    if mid < to {
        assert(range.last() == s[to - 1]);
        assert(range.drop_last() == s.subrange(from, to - 1));
        lemma_skip_trailing_range(s, from, mid, to - 1);
    } else if from < mid {
        assert(range.last() == s[mid - 1]);
    }
}

/// `s` without the white space at either end.
pub fn trim<'a>(s: &'a str) -> (t: &'a str)
    ensures
        t@ == trimmed(s@),
{
    let chars = chars_of(s);
    let len: usize = chars.len();
    let mut from: usize = 0;
    while from < len && is_whitespace(chars[from])
        invariant
            from <= len,
            len == chars@.len(),
            forall|i: int| 0 <= i < from ==> is_space(#[trigger] chars@[i]),
        decreases len - from,
    {
        from += 1;
    }
    let mut to: usize = len;
    while to > from && is_whitespace(chars[to - 1])
        invariant
            from <= to <= len,
            len == chars@.len(),
            forall|i: int| to <= i < len ==> is_space(#[trigger] chars@[i]),
        decreases to,
    {
        to -= 1;
    }
    proof {
        lemma_skip_leading_range(chars@, 0, from as int, len as int);
        assert(chars@.subrange(0, len as int) == chars@);
        let rest = chars@.subrange(from as int, len as int);
        lemma_skip_trailing_range(rest, 0, to - from, len - from);
        assert(rest.subrange(0, len - from) == rest);
        assert(rest.subrange(0, to - from) == chars@.subrange(from as int, to as int));
    }
    s.substring_char(from, to)
}

/// Whether `needle` occurs in `hay` at index `at`, tested character by
/// character.
fn matches_at(hay: &Vec<char>, needle: &Vec<char>, at: usize) -> (b: bool)
    requires
        at + needle@.len() <= hay@.len(),
    ensures
        b == occurs_at(hay@, needle@, at as int),
{
    let h: usize = hay.len();
    let n: usize = needle.len();
    let mut k: usize = 0;
    while k < n
        invariant
            k <= n,
            n == needle@.len(),
            h == hay@.len(),
            at + n <= h,
            forall|j: int| 0 <= j < k ==> hay@[at + j] == needle@[j],
        decreases n - k,
    {
        if hay[at + k] != needle[k] {
            proof {
                let window = hay@.subrange(at as int, at + n);
                assert(window[k as int] == hay@[at + k]);
            }
            return false;
        }
        k += 1;
    }
    assert(hay@.subrange(at as int, at + n) =~= needle@);
    true
}

/// Whether `needle` occurs somewhere in `hay`. The empty text occurs in
/// every text.
pub fn contains_text(hay: &str, needle: &str) -> (b: bool)
    ensures
        b == contains(hay@, needle@),
{
    let hay_chars = chars_of(hay);
    let needle_chars = chars_of(needle);
    let h: usize = hay_chars.len();
    let n: usize = needle_chars.len();
    if n > h {
        return false;
    }
    let last: usize = h - n;
    let mut at: usize = 0;
    loop
        invariant
            at <= last,
            last == h - n,
            h == hay_chars@.len(),
            n == needle_chars@.len(),
            hay_chars@ == hay@,
            needle_chars@ == needle@,
            forall|i: int| 0 <= i < at ==> !occurs_at(hay@, needle@, i),
        decreases last - at,
    {
        if matches_at(&hay_chars, &needle_chars, at) {
            return true;
        }
        if at == last {
            return false;
        }
        at += 1;
    }
}

/// What follows the last occurrence of `sep` in `s`; all of `s` where `sep`
/// does not occur.
pub fn text_after_last<'a>(s: &'a str, sep: char) -> (t: &'a str)
    ensures
        t@ == after_last(s@, sep),
{
    let chars = chars_of(s);
    let len: usize = chars.len();
    let mut from: usize = len;
    proof {
        assert(chars@.subrange(0, len as int) == chars@);
        assert(chars@.subrange(len as int, len as int) == Seq::<char>::empty());
        assert(after_last(chars@, sep) + Seq::<char>::empty() == after_last(chars@, sep));
    }
    while from > 0 && chars[from - 1] != sep
        invariant
            from <= len,
            len == chars@.len(),
            after_last(chars@, sep) == after_last(chars@.subrange(0, from as int), sep)
                + chars@.subrange(from as int, len as int),
        decreases from,
    {
        proof {
            let head = chars@.subrange(0, from as int);
            assert(head.last() == chars@[from - 1]);
            assert(head.drop_last() == chars@.subrange(0, from - 1));
            assert(after_last(head.drop_last(), sep).push(head.last()) + chars@.subrange(
                from as int,
                len as int,
            ) == after_last(head.drop_last(), sep) + chars@.subrange(from - 1, len as int));
        }
        from -= 1;
    }
    proof {
        let head = chars@.subrange(0, from as int);
        if from > 0 {
            assert(head.last() == chars@[from - 1]);
        }
        assert(after_last(head, sep) == Seq::<char>::empty());
        assert(Seq::<char>::empty() + chars@.subrange(from as int, len as int) == chars@.subrange(
            from as int,
            len as int,
        ));
    }
    s.substring_char(from, len)
}

/// A digit string is worth at least as much as each of its prefixes.
proof fn lemma_decimal_value_prefix(s: Seq<char>, k: int)
    requires
        0 <= k <= s.len(),
    ensures
        decimal_value(s.subrange(0, k)) <= decimal_value(s),
    decreases s.len(),
{
    if k == s.len() {
        assert(s.subrange(0, k) == s);
    } else {
        lemma_decimal_value_prefix(s.drop_last(), k);
        assert(s.drop_last().subrange(0, k) == s.subrange(0, k));
    }
}

/// Reads a 16-bit number written in base ten: an optional plus sign, then
/// one or more ASCII digits. Leading zeros are accepted; a sign alone, any
/// other character, and a value above 65535 are not.
pub fn parse_decimal_u16(s: &str) -> (r: Option<u16>)
    ensures
        r == parse_u16(s@),
{
    let chars = chars_of(s);
    let len: usize = chars.len();
    let start: usize = if len > 0 && chars[0] == '+' {
        1
    } else {
        0
    };
    let ghost digits = unsigned_part(s@);
    assert(digits == chars@.subrange(start as int, len as int));
    if start == len {
        return None;
    }
    let mut acc: u32 = 0;
    let mut i: usize = start;
    while i < len
        invariant
            start <= i <= len,
            len == chars@.len(),
            digits == unsigned_part(s@),
            digits == chars@.subrange(start as int, len as int),
            forall|j: int| start <= j < i ==> is_digit(#[trigger] chars@[j]),
            acc == decimal_value(chars@.subrange(start as int, i as int)),
            acc <= u16::MAX,
        decreases len - i,
    {
        let u: u32 = chars[i] as u32;
        if u < 0x30 || u > 0x39 {
            assert(digits[i - start] == chars@[i as int]);
            return None;
        }
        let next: u32 = acc * 10 + (u - 0x30);
        proof {
            let prefix = chars@.subrange(start as int, i + 1);
            assert(prefix.drop_last() == chars@.subrange(start as int, i as int));
            assert(prefix.last() == chars@[i as int]);
            assert(decimal_value(prefix) == next);
            assert(digits.subrange(0, i + 1 - start) == prefix);
            lemma_decimal_value_prefix(digits, i + 1 - start);
        }
        if next > 0xffff {
            return None;
        }
        acc = next;
        i += 1;
    }
    proof {
        assert(chars@.subrange(start as int, len as int) == digits);
        assert forall|j: int| 0 <= j < digits.len() implies is_digit(#[trigger] digits[j]) by {
            assert(digits[j] == chars@[start + j]);
        }
    }
    Some(acc as u16)
}

/// The one-character text that writes the digit `d`.
fn digit_text(d: u16) -> (t: &'static str)
    requires
        d < 10,
    ensures
        t@ == seq![digit_char(d as nat)],
{
    proof {
        reveal_strlit("0");
        reveal_strlit("1");
        reveal_strlit("2");
        reveal_strlit("3");
        reveal_strlit("4");
        reveal_strlit("5");
        reveal_strlit("6");
        reveal_strlit("7");
        reveal_strlit("8");
        reveal_strlit("9");
    }
    let t = if d == 0 {
        "0"
    } else if d == 1 {
        "1"
    } else if d == 2 {
        "2"
    } else if d == 3 {
        "3"
    } else if d == 4 {
        "4"
    } else if d == 5 {
        "5"
    } else if d == 6 {
        "6"
    } else if d == 7 {
        "7"
    } else if d == 8 {
        "8"
    } else {
        "9"
    };
    assert(t@ =~= seq![digit_char(d as nat)]);
    t
}

/// Appends `n`, written in base ten without leading zeros, to `out`.
pub fn push_decimal(out: &mut String, n: u16)
    ensures
        final(out)@ == old(out)@ + decimal(n as nat),
    decreases n,
{
    if n >= 10 {
        push_decimal(out, n / 10);
    }
    out.append(digit_text(n % 10));
    proof {
        if n >= 10 {
            assert(old(out)@ + decimal(n as nat / 10) + seq![digit_char(n as nat % 10)] == old(
                out,
            )@ + decimal(n as nat / 10).push(digit_char(n as nat % 10)));
        }
    }
}

/// A number written in base ten consists of digits, at least one, and is
/// worth the number that was written.
pub proof fn decimal_is_a_digit_string(n: nat)
    ensures
        decimal(n).len() >= 1,
        all_digits(decimal(n)),
        decimal_value(decimal(n)) == n,
    decreases n,
{
    let digits = decimal(n);
    if n < 10 {
        assert(digits.drop_last() == Seq::<char>::empty());
        assert(decimal_value(digits.drop_last()) == 0);
    } else {
        decimal_is_a_digit_string(n / 10);
        assert(digits.drop_last() == decimal(n / 10));
        assert(digits.last() == digit_char(n % 10));
    }
}

/// Every 16-bit number, written in base ten, is read back as itself.
pub proof fn written_number_is_read_back(n: u16)
    ensures
        parse_u16(decimal(n as nat)) == Some(n),
{
    decimal_is_a_digit_string(n as nat);
    assert(is_digit(decimal(n as nat)[0]));
}

/// Behind a text that ends in the separator, a text without the separator
/// is what follows the last separator.
pub proof fn after_last_of_joined(head: Seq<char>, tail: Seq<char>, sep: char)
    requires
        head.len() > 0,
        head.last() == sep,
        forall|i: int| 0 <= i < tail.len() ==> tail[i] != sep,
    ensures
        after_last(head + tail, sep) == tail,
    decreases tail.len(),
{
    let whole = head + tail;
    if tail.len() == 0 {
        assert(whole == head);
    } else {
        assert(whole.last() == tail.last());
        assert(whole.drop_last() == head + tail.drop_last());
        after_last_of_joined(head, tail.drop_last(), sep);
        assert(tail.drop_last().push(tail.last()) == tail);
    }
}

} // verus!
