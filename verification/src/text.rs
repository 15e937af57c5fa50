//! Strings as sequences of characters: the text operations that the rest of
//! the library is stated in.

use vstd::prelude::*;
use vstd::string::*;

verus! {

/// `String::push` appends one character and changes nothing else.
pub assume_specification[ String::push ](s: &mut String, c: char)
    ensures
        final(s)@ == old(s)@.push(c),
;

/// The characters that an optional string holds.
pub open spec fn opt_text(value: Option<String>) -> Option<Seq<char>> {
    match value {
        Some(s) => Some(s@),
        None => None,
    }
}

/// The characters of each string of a list.
pub open spec fn texts(values: Seq<String>) -> Seq<Seq<char>> {
    values.map_values(|s: String| s@)
}

pub proof fn lemma_texts_push(values: Seq<String>, s: String)
    ensures
        texts(values.push(s)) == texts(values).push(s@),
{
    assert(texts(values.push(s)) =~= texts(values).push(s@));
}

/// The characters of `s`, in order.
pub fn chars_of(s: &str) -> (out: Vec<char>)
    ensures
        out@ == s@,
{
    let mut out: Vec<char> = Vec::new();
    for c in it: s.chars()
        invariant
            out@ == s@.take(it.index() as int),
            it.seq() == s@,
    {
        out.push(c);
    }
    proof {
        assert(s@.take(s@.len() as int) =~= s@);
    }
    out
}

/// The string that holds `chars[from..to]`.
pub fn substring_of(chars: &Vec<char>, from: usize, to: usize) -> (out: String)
    requires
        from <= to <= chars@.len(),
    ensures
        out@ == chars@.subrange(from as int, to as int),
{
    let mut out = String::new();
    for i in from..to
        invariant
            from <= to <= chars@.len(),
            out@ == chars@.subrange(from as int, i as int),
    {
        out.push(chars[i]);
        proof {
            assert(chars@.subrange(from as int, i + 1) =~= chars@.subrange(
                from as int,
                i as int,
            ).push(chars@[i as int]));
        }
    }
    out
}

/// Whether `a` and `b` hold the same characters.
pub fn same_text(a: &str, b: &str) -> (same: bool)
    ensures
        same == (a@ == b@),
{
    a.to_owned() == b.to_owned()
}

/// A copy of an optional string.
pub fn clone_opt(value: &Option<String>) -> (out: Option<String>)
    ensures
        out == *value,
        opt_text(out) == opt_text(*value),
{
    match value {
        Some(s) => Some(s.clone()),
        None => None,
    }
}

/// `head` followed by `tail`.
pub fn concat2(head: &str, tail: &str) -> (out: String)
    ensures
        out@ == head@ + tail@,
{
    let mut out = head.to_owned();
    out.append(tail);
    out
}

/// `a`, `b` and `c`, one after another.
pub fn concat3(a: &str, b: &str, c: &str) -> (out: String)
    ensures
        out@ == a@ + b@ + c@,
{
    let mut out = a.to_owned();
    out.append(b);
    out.append(c);
    out
}

/// The characters with Unicode's `White_Space` property.
pub open spec fn white_space(c: char) -> bool {
    let n = c as u32;
    ||| 0x09 <= n <= 0x0d
    ||| n == 0x20
    ||| n == 0x85
    ||| n == 0xa0
    ||| n == 0x1680
    ||| 0x2000 <= n <= 0x200a
    ||| n == 0x2028
    ||| n == 0x2029
    ||| n == 0x202f
    ||| n == 0x205f
    ||| n == 0x3000
}

/// Whether `c` is white space.
pub fn is_white_space(c: char) -> (r: bool)
    ensures
        r == white_space(c),
{
    let n: u32 = c as u32;
    (0x09 <= n && n <= 0x0d) || n == 0x20 || n == 0x85 || n == 0xa0 || n == 0x1680 || (0x2000 <= n
        && n <= 0x200a) || n == 0x2028 || n == 0x2029 || n == 0x202f || n == 0x205f || n == 0x3000
}

/// The control characters (Unicode's category `Cc`).
pub open spec fn control(c: char) -> bool {
    let n = c as u32;
    n < 0x20 || 0x7f <= n <= 0x9f
}

/// Whether `c` is a control character.
pub fn is_control(c: char) -> (r: bool)
    ensures
        r == control(c),
{
    let n: u32 = c as u32;
    n < 0x20 || (0x7f <= n && n <= 0x9f)
}

/// ASCII letters and digits.
pub open spec fn ascii_alphanumeric(c: char) -> bool {
    ||| '0' <= c <= '9'
    ||| 'a' <= c <= 'z'
    ||| 'A' <= c <= 'Z'
}

/// Whether `c` is an ASCII letter or digit.
pub fn is_ascii_alphanumeric(c: char) -> (r: bool)
    ensures
        r == ascii_alphanumeric(c),
{
    ('0' <= c && c <= '9') || ('a' <= c && c <= 'z') || ('A' <= c && c <= 'Z')
}

/// `s` without the white space that it starts with.
pub open spec fn trimmed_start(s: Seq<char>) -> Seq<char>
    decreases s.len(),
{
    if s.len() > 0 && white_space(s[0]) {
        trimmed_start(s.subrange(1, s.len() as int))
    } else {
        s
    }
}

/// `s` without the white space that it ends with.
pub open spec fn trimmed_end(s: Seq<char>) -> Seq<char>
    decreases s.len(),
{
    if s.len() > 0 && white_space(s[s.len() - 1]) {
        trimmed_end(s.subrange(0, s.len() - 1))
    } else {
        s
    }
}

/// `s` without white space at either end.
pub open spec fn trimmed(s: Seq<char>) -> Seq<char> {
    trimmed_end(trimmed_start(s))
}

/// `s` without white space at either end.
pub fn trim(s: &str) -> (out: String)
    ensures
        out@ == trimmed(s@),
{
    let chars = chars_of(s);
    let mut from: usize = 0;
    proof {
        assert(chars@.subrange(0, chars@.len() as int) =~= s@);
    }
    while from < chars.len() && is_white_space(chars[from])
        invariant
            from <= chars@.len(),
            trimmed_start(s@) == trimmed_start(chars@.subrange(from as int, chars@.len() as int)),
            chars@ == s@,
        decreases chars@.len() - from,
    {
        proof {
            let rest = chars@.subrange(from as int, chars@.len() as int);
            assert(rest.subrange(1, rest.len() as int) =~= chars@.subrange(
                from + 1,
                chars@.len() as int,
            ));
        }
        from = from + 1;
    }
    proof {
        let rest = chars@.subrange(from as int, chars@.len() as int);
        assert(trimmed_start(rest) == rest);
    }
    let mut to: usize = chars.len();
    while from < to && is_white_space(chars[to - 1])
        invariant
            from <= to <= chars@.len(),
            trimmed(s@) == trimmed_end(chars@.subrange(from as int, to as int)),
            chars@ == s@,
        decreases to - from,
    {
        proof {
            let rest = chars@.subrange(from as int, to as int);
            assert(rest.subrange(0, rest.len() - 1) =~= chars@.subrange(from as int, to - 1));
        }
        to = to - 1;
    }
    substring_of(&chars, from, to)
}

/// Whether `s` is empty or holds nothing but white space.
pub fn is_blank(s: &str) -> (r: bool)
    ensures
        r == (trimmed(s@).len() == 0),
{
    let t = trim(s);
    t.as_str().is_empty()
}

/// `c` with the letters `A` to `Z` in lower case.
pub open spec fn lower_char(c: char) -> char {
    if 'A' <= c <= 'Z' {
        ((c as u32 + 32) as u32) as char
    } else {
        c
    }
}

/// `s` with the letters `A` to `Z` in lower case.
pub open spec fn lowered(s: Seq<char>) -> Seq<char> {
    s.map_values(|c: char| lower_char(c))
}

fn lower_ascii_char(c: char) -> (r: char)
    ensures
        r == lower_char(c),
{
    if 'A' <= c && c <= 'Z' {
        let n: u8 = (c as u8) + 32;
        n as char
    } else {
        c
    }
}

/// `s` with the letters `A` to `Z` in lower case.
pub fn to_ascii_lowercase(s: &str) -> (out: String)
    ensures
        out@ == lowered(s@),
{
    let chars = chars_of(s);
    let mut out = String::new();
    for i in 0..chars.len()
        invariant
            chars@ == s@,
            out@ == lowered(s@.take(i as int)),
    {
        out.push(lower_ascii_char(chars[i]));
        proof {
            assert(lowered(s@.take(i + 1)) =~= lowered(s@.take(i as int)).push(lower_char(s@[i as int])));
        }
    }
    proof {
        assert(s@.take(s@.len() as int) =~= s@);
    }
    out
}

/// Whether `a` and `b` differ at most in the case of ASCII letters.
pub fn eq_ignore_ascii_case(a: &str, b: &str) -> (same: bool)
    ensures
        same == (lowered(a@) == lowered(b@)),
{
    to_ascii_lowercase(a) == to_ascii_lowercase(b)
}

/// The character of a decimal digit.
pub open spec fn digit_char(d: int) -> char {
    (48 + d) as char
}

/// `n` in decimal.
pub open spec fn decimal(n: nat) -> Seq<char>
    decreases n,
{
    if n < 10 {
        seq![digit_char(n as int)]
    } else {
        decimal(n / 10).push(digit_char((n % 10) as int))
    }
}

/// `n` in decimal.
pub fn decimal_text(n: u64) -> (out: String)
    ensures
        out@ == decimal(n as nat),
    decreases n,
{
    let digit: u8 = 48u8 + (n % 10) as u8;
    if n < 10 {
        let mut out = String::new();
        out.push(digit as char);
        proof {
            assert(out@ =~= decimal(n as nat));
        }
        out
    } else {
        let mut out = decimal_text(n / 10);
        out.push(digit as char);
        out
    }
}

/// The value of a decimal digit.
pub open spec fn digit_value(c: char) -> int {
    c as int - 48
}

/// Whether `s` is a non-empty run of ASCII digits.
pub open spec fn all_digits(s: Seq<char>) -> bool {
    s.len() > 0 && forall|i: int| 0 <= i < s.len() ==> '0' <= #[trigger] s[i] <= '9'
}

/// The number that a run of digits denotes.
pub open spec fn number(s: Seq<char>) -> nat
    decreases s.len(),
{
    if s.len() == 0 {
        0
    } else {
        (number(s.drop_last()) * 10 + digit_value(s.last())) as nat
    }
}

/// The digits of a number that may start with `+`.
pub open spec fn without_plus(s: Seq<char>) -> Seq<char> {
    if s.len() > 0 && s[0] == '+' {
        s.subrange(1, s.len() as int)
    } else {
        s
    }
}

/// What `s` denotes as an unsigned machine word: digits, after at most one
/// `+`, whose value fits.
pub open spec fn parsed_usize(s: Seq<char>) -> Option<usize> {
    let digits = without_plus(s);
    if all_digits(digits) && number(digits) <= usize::MAX {
        Some(number(digits) as usize)
    } else {
        None
    }
}

/// What `s` denotes as a signed 64-bit number: digits, after at most one sign,
/// whose value fits.
pub open spec fn parsed_i64(s: Seq<char>) -> Option<i64> {
    let negative = s.len() > 0 && s[0] == '-';
    let digits = if negative {
        s.subrange(1, s.len() as int)
    } else {
        without_plus(s)
    };
    let value = if negative {
        -(number(digits) as int)
    } else {
        number(digits) as int
    };
    if all_digits(digits) && i64::MIN <= value <= i64::MAX {
        Some(value as i64)
    } else {
        None
    }
}

proof fn lemma_number_grows(s: Seq<char>, k: int)
    requires
        0 <= k <= s.len(),
        forall|i: int| 0 <= i < s.len() ==> '0' <= #[trigger] s[i] <= '9',
    ensures
        number(s.take(k)) <= number(s),
    decreases s.len(),
{
    if k < s.len() {
        let head = s.drop_last();
        assert(head.take(k) =~= s.take(k));
        lemma_number_grows(head, k);
        let d = digit_value(s.last());
        assert(0 <= d <= 9);
    } else {
        assert(s.take(k) =~= s);
    }
}

/// The number that `chars[from..]` denotes, where it is all digits and at most
/// `limit`.
fn read_digits(chars: &Vec<char>, from: usize, limit: u128) -> (r: Option<u128>)
    requires
        from <= chars@.len(),
        limit <= u64::MAX,
    ensures
        ({
            let digits = chars@.subrange(from as int, chars@.len() as int);
            r == if all_digits(digits) && number(digits) <= limit {
                Some(number(digits) as u128)
            } else {
                None
            }
        }),
{
    let ghost digits = chars@.subrange(from as int, chars@.len() as int);
    if from == chars.len() {
        return None;
    }
    let mut value: u128 = 0;
    for i in from..chars.len()
        invariant
            from <= chars@.len(),
            limit <= u64::MAX,
            digits == chars@.subrange(from as int, chars@.len() as int),
            value <= limit,
            value == number(digits.take(i - from)),
            forall|j: int| 0 <= j < i - from ==> '0' <= #[trigger] digits[j] <= '9',
    {
        let c = chars[i];
        proof {
            assert(digits[i - from] == c);
        }
        if c < '0' || c > '9' {
            return None;
        }
        let d: u128 = (c as u32 - 48) as u128;
        let next: u128 = value * 10 + d;
        proof {
            let longer = digits.take(i - from + 1);
            assert(longer.drop_last() =~= digits.take(i - from));
            assert(longer.last() == c);
            assert(number(longer) == next);
            if all_digits(digits) {
                lemma_number_grows(digits, i - from + 1);
            }
        }
        if next > limit {
            return None;
        }
        value = next;
    }
    proof {
        assert(digits.take(chars@.len() - from) =~= digits);
    }
    Some(value)
}

/// Reads `s` as an unsigned machine word.
pub fn parse_usize(s: &str) -> (r: Option<usize>)
    ensures
        r == parsed_usize(s@),
{
    let chars = chars_of(s);
    let from: usize = if chars.len() > 0 && chars[0] == '+' {
        1
    } else {
        0
    };
    proof {
        assert(chars@.subrange(from as int, chars@.len() as int) =~= without_plus(s@));
    }
    match read_digits(&chars, from, usize::MAX as u128) {
        Some(v) => Some(v as usize),
        None => None,
    }
}

/// Reads `s` as a signed 64-bit number.
pub fn parse_i64(s: &str) -> (r: Option<i64>)
    ensures
        r == parsed_i64(s@),
{
    let chars = chars_of(s);
    let negative = chars.len() > 0 && chars[0] == '-';
    let signed = negative || (chars.len() > 0 && chars[0] == '+');
    let from: usize = if signed {
        1
    } else {
        0
    };
    let limit: u128 = if negative {
        9223372036854775808u128
    } else {
        9223372036854775807u128
    };
    proof {
        if negative {
            assert(chars@.subrange(1, chars@.len() as int) =~= s@.subrange(1, s@.len() as int));
        } else {
            assert(chars@.subrange(from as int, chars@.len() as int) =~= without_plus(s@));
        }
    }
    match read_digits(&chars, from, limit) {
        Some(v) => {
            if negative {
                Some((0i128 - v as i128) as i64)
            } else {
                Some(v as i64)
            }
        },
        None => None,
    }
}

/// The lower-case hexadecimal digit of `n`.
pub open spec fn hex_digit(n: int) -> char {
    if n < 10 {
        (48 + n) as char
    } else {
        (87 + n) as char
    }
}

/// The two lower-case hexadecimal digits of a byte.
pub open spec fn hex_pair(b: u8) -> Seq<char> {
    seq![hex_digit(b as int / 16), hex_digit(b as int % 16)]
}

/// Bytes in lower-case hexadecimal, two digits each.
pub open spec fn hex(bytes: Seq<u8>) -> Seq<char>
    decreases bytes.len(),
{
    if bytes.len() == 0 {
        Seq::empty()
    } else {
        hex(bytes.drop_last()) + hex_pair(bytes.last())
    }
}

fn hex_digit_char(n: u8) -> (c: char)
    requires
        n < 16,
    ensures
        c == hex_digit(n as int),
{
    if n < 10 {
        (48 + n) as char
    } else {
        (87 + n) as char
    }
}

/// Appends the two hexadecimal digits of `b`.
pub fn push_hex(out: &mut String, b: u8)
    ensures
        final(out)@ == old(out)@ + hex_pair(b),
{
    out.push(hex_digit_char(b / 16));
    out.push(hex_digit_char(b % 16));
    proof {
        assert(out@ =~= old(out)@ + hex_pair(b));
    }
}

/// Bytes in lower-case hexadecimal, two digits each.
pub fn hex_text(bytes: &Vec<u8>) -> (out: String)
    ensures
        out@ == hex(bytes@),
        out@.len() == 2 * bytes@.len(),
{
    let mut out = String::new();
    for i in 0..bytes.len()
        invariant
            out@ == hex(bytes@.take(i as int)),
            out@.len() == 2 * i,
    {
        push_hex(&mut out, bytes[i]);
        proof {
            assert(bytes@.take(i + 1).drop_last() =~= bytes@.take(i as int));
        }
    }
    proof {
        assert(bytes@.take(bytes@.len() as int) =~= bytes@);
    }
    out
}

/// Whether `s` starts with `prefix`.
pub open spec fn begins_with(s: Seq<char>, prefix: Seq<char>) -> bool {
    prefix.len() <= s.len() && s.subrange(0, prefix.len() as int) == prefix
}

/// Whether `s` ends with `suffix`.
pub open spec fn finishes_with(s: Seq<char>, suffix: Seq<char>) -> bool {
    suffix.len() <= s.len() && s.subrange(s.len() - suffix.len(), s.len() as int) == suffix
}

/// Whether `chars[at..]` starts with `word`.
pub fn matches_at(chars: &Vec<char>, at: usize, word: &str) -> (r: bool)
    requires
        at <= chars@.len(),
    ensures
        r == begins_with(chars@.subrange(at as int, chars@.len() as int), word@),
{
    let w = chars_of(word);
    let ghost rest = chars@.subrange(at as int, chars@.len() as int);
    let n: usize = chars.len();
    if n - at < w.len() {
        return false;
    }
    for i in 0..w.len()
        invariant
            at <= n,
            n == chars@.len(),
            w@ == word@,
            w@.len() <= chars@.len() - at,
            rest == chars@.subrange(at as int, chars@.len() as int),
            forall|j: int| 0 <= j < i ==> rest[j] == #[trigger] w@[j],
    {
        if chars[at + i] != w[i] {
            proof {
                assert(rest.subrange(0, w@.len() as int)[i as int] != w@[i as int]);
            }
            return false;
        }
    }
    proof {
        assert(rest.subrange(0, w@.len() as int) =~= w@);
    }
    true
}

/// Whether `s` starts with `prefix`.
pub fn starts_with(s: &str, prefix: &str) -> (r: bool)
    ensures
        r == begins_with(s@, prefix@),
{
    let chars = chars_of(s);
    proof {
        assert(chars@.subrange(0, chars@.len() as int) =~= s@);
    }
    matches_at(&chars, 0, prefix)
}

/// Whether `s` ends with `suffix`.
pub fn ends_with(s: &str, suffix: &str) -> (r: bool)
    ensures
        r == finishes_with(s@, suffix@),
{
    let chars = chars_of(s);
    let w = chars_of(suffix);
    if chars.len() < w.len() {
        return false;
    }
    let at: usize = chars.len() - w.len();
    proof {
        let rest = chars@.subrange(at as int, chars@.len() as int);
        assert(rest.subrange(0, w@.len() as int) =~= rest);
    }
    matches_at(&chars, at, suffix)
}

/// Whether `c` occurs in `s`.
pub fn contains_char(s: &str, c: char) -> (r: bool)
    ensures
        r == s@.contains(c),
{
    let chars = chars_of(s);
    for i in 0..chars.len()
        invariant
            chars@ == s@,
            forall|j: int| 0 <= j < i ==> #[trigger] s@[j] != c,
    {
        if chars[i] == c {
            return true;
        }
    }
    false
}

/// `parts` with `sep` between each two of them.
pub open spec fn joined(parts: Seq<Seq<char>>, sep: Seq<char>) -> Seq<char>
    decreases parts.len(),
{
    if parts.len() == 0 {
        Seq::empty()
    } else if parts.len() == 1 {
        parts[0]
    } else {
        joined(parts.drop_last(), sep) + sep + parts.last()
    }
}

/// `parts` with `sep` between each two of them.
pub fn join_texts(parts: &Vec<String>, sep: &str) -> (out: String)
    ensures
        out@ == joined(texts(parts@), sep@),
{
    let mut out = String::new();
    for i in 0..parts.len()
        invariant
            out@ == joined(texts(parts@).take(i as int), sep@),
    {
        proof {
            let longer = texts(parts@).take(i + 1);
            assert(longer.drop_last() =~= texts(parts@).take(i as int));
            assert(longer.last() == parts@[i as int]@);
            if i == 0 {
                assert(longer[0] == parts@[0]@);
            }
        }
        if i > 0 {
            out.append(sep);
        }
        out.append(parts[i].as_str());
        proof {
            if i == 0 {
                assert(out@ =~= parts@[0]@);
            }
        }
    }
    proof {
        assert(texts(parts@).take(parts@.len() as int) =~= texts(parts@));
    }
    out
}

proof fn lemma_trimmed_start(s: Seq<char>)
    ensures
        ({
            let t = trimmed_start(s);
            let n = s.len() - t.len();
            &&& 0 <= n
            &&& t == s.skip(n)
            &&& forall|i: int| 0 <= i < n ==> white_space(#[trigger] s[i])
            &&& t.len() > 0 ==> !white_space(t[0])
        }),
    decreases s.len(),
{
    if s.len() > 0 && white_space(s[0]) {
        let rest = s.subrange(1, s.len() as int);
        lemma_trimmed_start(rest);
        let n = s.len() - trimmed_start(s).len();
        assert(rest.skip(n - 1) =~= s.skip(n));
        assert forall|i: int| 0 <= i < n implies white_space(#[trigger] s[i]) by {
            if i > 0 {
                assert(rest[i - 1] == s[i]);
            }
        }
    } else {
        assert(s.skip(0) =~= s);
    }
}

proof fn lemma_trimmed_end(s: Seq<char>)
    ensures
        ({
            let t = trimmed_end(s);
            let n = t.len() as int;
            &&& n <= s.len()
            &&& t == s.take(n)
            &&& forall|i: int| n <= i < s.len() ==> white_space(#[trigger] s[i])
            &&& n > 0 ==> !white_space(t[n - 1])
        }),
    decreases s.len(),
{
    if s.len() > 0 && white_space(s[s.len() - 1]) {
        let rest = s.subrange(0, s.len() - 1);
        lemma_trimmed_end(rest);
        let n = trimmed_end(s).len() as int;
        assert(rest.take(n) =~= s.take(n));
        assert forall|i: int| n <= i < s.len() implies white_space(#[trigger] s[i]) by {
            if i < rest.len() {
                assert(rest[i] == s[i]);
            }
        }
    } else {
        assert(s.take(s.len() as int) =~= s);
    }
}

/// Trimming takes white space away from both ends, all of it, and nothing else: what
/// is left neither starts nor ends with any, and stands in the text between it.
pub proof fn law_trim_takes_white_space_off_the_ends(s: Seq<char>)
    ensures
        ({
            let t = trimmed(s);
            &&& t.len() > 0 ==> !white_space(t[0]) && !white_space(t[t.len() - 1])
            &&& exists|a: int|
                #![trigger s.skip(a)]
                0 <= a && a + t.len() <= s.len() && t == s.skip(a).take(t.len() as int) && forall|
                    i: int,
                |
                    0 <= i < a || a + t.len() <= i < s.len() ==> white_space(#[trigger] s[i])
        }),
{
    let front = trimmed_start(s);
    let t = trimmed(s);
    let a = s.len() - front.len();
    lemma_trimmed_start(s);
    lemma_trimmed_end(front);
    assert(s.skip(a) == front);
    assert forall|i: int| 0 <= i < a || a + t.len() <= i < s.len() implies white_space(
        #[trigger] s[i],
    ) by {
        if i >= a {
            assert(front[i - a] == s[i]);
        }
    }
    if t.len() > 0 {
        assert(t[0] == front[0]);
    }
}

/// A number is written so that it reads back as itself: in digits, without zeros in
/// front.
pub proof fn law_number_reads_back(n: nat)
    ensures
        all_digits(decimal(n)),
        number(decimal(n)) == n,
        n > 0 ==> decimal(n)[0] != '0',
        decimal(n).len() > 1 ==> decimal(n)[0] != '0',
    decreases n,
{
    if n < 10 {
        let s = decimal(n);
        assert(s.drop_last() =~= Seq::<char>::empty());
        assert(number(s.drop_last()) == 0);
        assert(s.last() == digit_char(n as int));
    } else {
        law_number_reads_back(n / 10);
        let head = decimal(n / 10);
        let s = decimal(n);
        assert(s.drop_last() =~= head);
        assert(s.last() == digit_char((n % 10) as int));
        assert forall|i: int| 0 <= i < s.len() implies '0' <= #[trigger] s[i] <= '9' by {
            if i < head.len() {
                assert(s[i] == head[i]);
            }
        }
        assert(s[0] == head[0]);
    }
}

/// Reading a number gives back what was written, with or without a plus, where it
/// fits; a minus makes it negative. Whatever is too large, empty, or holds anything
/// else, is no number.
pub proof fn law_numbers_are_read_as_written(n: nat, s: Seq<char>)
    ensures
        parsed_usize(decimal(n)) == (if n <= usize::MAX {
            Some(n as usize)
        } else {
            None
        }),
        parsed_usize(seq!['+'] + decimal(n)) == parsed_usize(decimal(n)),
        parsed_i64(decimal(n)) == (if n <= i64::MAX {
            Some(n as i64)
        } else {
            None
        }),
        parsed_i64(seq!['+'] + decimal(n)) == parsed_i64(decimal(n)),
        parsed_i64(seq!['-'] + decimal(n)) == (if n <= i64::MAX + 1 {
            Some((0 - n) as i64)
        } else {
            None
        }),
        s.len() == 0 ==> parsed_usize(s) is None && parsed_i64(s) is None,
        forall|i: int|
            0 <= i < s.len() && !('0' <= #[trigger] s[i] <= '9') && (i > 0 || s[i] != '+')
                ==> parsed_usize(s) is None,
        forall|i: int|
            0 <= i < s.len() && !('0' <= #[trigger] s[i] <= '9') && (i > 0 || s[i] != '+' && s[i]
                != '-') ==> parsed_i64(s) is None,
{
    law_number_reads_back(n);
    let d = decimal(n);
    let plus = seq!['+'] + d;
    let minus = seq!['-'] + d;
    assert('0' <= d[0] <= '9');
    assert(plus.subrange(1, plus.len() as int) =~= d);
    assert(minus.subrange(1, minus.len() as int) =~= d);
    assert(plus[0] == '+' && minus[0] == '-');
    assert forall|i: int|
        0 <= i < s.len() && !('0' <= #[trigger] s[i] <= '9') && (i > 0 || s[i]
            != '+') implies parsed_usize(s) is None by {
        let digits = without_plus(s);
        if s[0] == '+' {
            assert(digits[i - 1] == s[i]);
        } else {
            assert(digits[i] == s[i]);
        }
    }
    assert forall|i: int|
        0 <= i < s.len() && !('0' <= #[trigger] s[i] <= '9') && (i > 0 || s[i] != '+' && s[i]
            != '-') implies parsed_i64(s) is None by {
        if s[0] == '-' {
            assert(s.subrange(1, s.len() as int)[i - 1] == s[i]);
        } else if s[0] == '+' {
            assert(without_plus(s)[i - 1] == s[i]);
        } else {
            assert(without_plus(s)[i] == s[i]);
        }
    }
}

/// The number that a lower-case hexadecimal digit stands for.
pub open spec fn hex_value(c: char) -> int {
    if '0' <= c <= '9' {
        c as int - '0' as int
    } else {
        c as int - 'a' as int + 10
    }
}

/// Whether `c` is a lower-case hexadecimal digit.
pub open spec fn is_hex(c: char) -> bool {
    '0' <= c <= '9' || 'a' <= c <= 'f'
}

/// Every byte is written as two lower-case hexadecimal digits, the higher one first,
/// so the bytes can be read back.
pub proof fn law_hex_reads_back(bytes: Seq<u8>, i: int)
    requires
        0 <= i < bytes.len(),
    ensures
        hex(bytes).len() == 2 * bytes.len(),
        is_hex(hex(bytes)[2 * i]) && is_hex(hex(bytes)[2 * i + 1]),
        16 * hex_value(hex(bytes)[2 * i]) + hex_value(hex(bytes)[2 * i + 1]) == bytes[i],
    decreases bytes.len(),
{
    let rest = bytes.drop_last();
    let head = hex(rest);
    lemma_hex_length(rest);
    if i < rest.len() {
        law_hex_reads_back(rest, i);
        assert(hex(bytes)[2 * i] == head[2 * i]);
        assert(hex(bytes)[2 * i + 1] == head[2 * i + 1]);
    } else {
        let b = bytes.last();
        let pair = hex_pair(b);
        assert(hex(bytes)[2 * i] == pair[0]);
        assert(hex(bytes)[2 * i + 1] == pair[1]);
        let (hi, lo) = (b as int / 16, b as int % 16);
        assert(hex_value(hex_digit(hi)) == hi && is_hex(hex_digit(hi)));
        assert(hex_value(hex_digit(lo)) == lo && is_hex(hex_digit(lo)));
        assert(16 * hi + lo == b);
    }
}

proof fn lemma_hex_length(bytes: Seq<u8>)
    ensures
        hex(bytes).len() == 2 * bytes.len(),
    decreases bytes.len(),
{
    if bytes.len() > 0 {
        lemma_hex_length(bytes.drop_last());
    }
}

/// Texts are joined in order, with the separator between each two and nowhere else.
pub proof fn law_joined_texts(parts: Seq<Seq<char>>, part: Seq<char>, sep: Seq<char>)
    ensures
        joined(Seq::empty(), sep).len() == 0,
        joined(seq![part], sep) == part,
        parts.len() > 0 ==> joined(parts.push(part), sep) == joined(parts, sep) + sep + part,
{
    if parts.len() > 0 {
        assert(parts.push(part).drop_last() =~= parts);
    }
}

/// Lower case changes the letters `A` to `Z` alone, each to the one that it stands
/// for.
pub proof fn law_lower_case(s: Seq<char>, i: int)
    requires
        0 <= i < s.len(),
    ensures
        lowered(s).len() == s.len(),
        'A' <= s[i] <= 'Z' ==> 'a' <= lowered(s)[i] <= 'z' && lowered(s)[i] as int - 'a' as int
            == s[i] as int - 'A' as int,
        !('A' <= s[i] <= 'Z') ==> lowered(s)[i] == s[i],
{
}

/// Whether `name` is `word`, which is in lower case, but for the case of its
/// letters.
pub open spec fn reads_like(name: Seq<char>, word: Seq<char>) -> bool {
    &&& name.len() == word.len()
    &&& forall|i: int|
        0 <= i < name.len() ==> (#[trigger] name[i] == word[i] || 'A' <= name[i] <= 'Z'
            && name[i] as int + 32 == word[i] as int)
}

pub proof fn lemma_reads_like(name: Seq<char>, word: Seq<char>)
    requires
        forall|i: int| 0 <= i < word.len() ==> !('A' <= #[trigger] word[i] <= 'Z'),
    ensures
        lowered(name) == lowered(word) <==> reads_like(name, word),
{
    if reads_like(name, word) {
        assert(lowered(name) =~= lowered(word)) by {
            assert forall|i: int| 0 <= i < name.len() implies lowered(name)[i] == lowered(
                word,
            )[i] by {
                assert(name[i] == word[i] || 'A' <= name[i] <= 'Z');
            }
        }
    }
    if lowered(name) == lowered(word) {
        assert(lowered(name).len() == name.len() && lowered(word).len() == word.len());
        assert forall|i: int| 0 <= i < name.len() implies (#[trigger] name[i] == word[i] || 'A'
            <= name[i] <= 'Z' && name[i] as int + 32 == word[i] as int) by {
            assert(lowered(name)[i] == lowered(word)[i]);
            assert(!('A' <= word[i] <= 'Z'));
        }
    }
}

/// Control characters are those below the space, and those from delete on up to
/// where Latin-1 starts.
pub proof fn law_control_characters(c: char)
    ensures
        control(c) <==> c < ' ' || '\u{7f}' <= c <= '\u{9f}',
{
}

/// White space is the space and what breaks lines or columns, the spaces that do not
/// break, and the wide and narrow ones.
pub proof fn law_white_space_characters(c: char)
    ensures
        white_space(c) <==> c == ' ' || '\t' <= c <= '\r' || c == '\u{85}' || c == '\u{a0}' || c
            == '\u{1680}' || '\u{2000}' <= c <= '\u{200a}' || c == '\u{2028}' || c == '\u{2029}'
            || c == '\u{202f}' || c == '\u{205f}' || c == '\u{3000}',
{
}

/// A text starts with another where it is that one and something behind it, and ends
/// with another where it is something and that one behind it.
pub proof fn law_starts_and_ends(s: Seq<char>, part: Seq<char>)
    ensures
        begins_with(s, part) <==> exists|rest: Seq<char>| s == #[trigger] (part + rest),
        finishes_with(s, part) <==> exists|rest: Seq<char>| s == #[trigger] (rest + part),
{
    let (n, m) = (s.len() as int, part.len() as int);
    if begins_with(s, part) {
        let rest = s.skip(m);
        assert(s =~= part + rest) by {
            assert forall|i: int| 0 <= i < n implies s[i] == (part + rest)[i] by {
                if i < m {
                    assert(s.subrange(0, m)[i] == part[i]);
                }
            }
        }
    }
    if exists|rest: Seq<char>| s == #[trigger] (part + rest) {
        let rest = choose|rest: Seq<char>| s == #[trigger] (part + rest);
        assert(s.subrange(0, m) =~= part);
    }
    if finishes_with(s, part) {
        let rest = s.take(n - m);
        assert(s =~= rest + part) by {
            assert forall|i: int| 0 <= i < n implies s[i] == (rest + part)[i] by {
                if i >= n - m {
                    assert(s.subrange(n - m, n)[i - (n - m)] == part[i - (n - m)]);
                }
            }
        }
    }
    if exists|rest: Seq<char>| s == #[trigger] (rest + part) {
        let rest = choose|rest: Seq<char>| s == #[trigger] (rest + part);
        assert(s.subrange(n - m, n) =~= part);
    }
}

/// The ASCII letters and digits are those of the three runs of the code.
pub proof fn law_ascii_letters_and_digits(c: char)
    ensures
        ascii_alphanumeric(c) <==> 48 <= c as int <= 57 || 65 <= c as int <= 90 || 97 <= c as int
            <= 122,
{
}

} // verus!
