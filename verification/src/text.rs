//! Text: searching, trimming, letter case and integers.

use vstd::prelude::*;
use vstd::string::{StrSliceExecFns, StringExecFns};

verus! {

/// `part` stands somewhere in `s`.
pub open spec fn occurs_in(part: Seq<char>, s: Seq<char>) -> bool {
    exists|i: int|
        0 <= i && i + part.len() <= s.len() && #[trigger] s.subrange(i, i + part.len()) == part
}

/// What follows the last `sep` in `s`; all of `s` where there is none.
pub open spec fn after_last(s: Seq<char>, sep: char) -> Seq<char>
    decreases s.len(),
{
    if s.len() == 0 || s.last() == sep {
        Seq::empty()
    } else {
        after_last(s.drop_last(), sep).push(s.last())
    }
}

/// `c` is one of the digits `0` to `9`.
pub open spec fn is_digit(c: char) -> bool {
    '0' <= c && c <= '9'
}

/// `s` is one or more digits.
pub open spec fn all_digits(s: Seq<char>) -> bool {
    s.len() > 0 && forall|i: int| 0 <= i < s.len() ==> is_digit(#[trigger] s[i])
}

/// The number that a sequence of digits writes.
pub open spec fn digits_value(s: Seq<char>) -> int
    decreases s.len(),
{
    if s.len() == 0 {
        0
    } else {
        10 * digits_value(s.drop_last()) + (s.last() as int - '0' as int)
    }
}

/// The integer from `low` to `high` that `s` writes: an optional sign, `-` only
/// where negative numbers are in question, and then digits.
pub open spec fn integer_text(s: Seq<char>, low: int, high: int) -> Option<int> {
    let minus = low < 0 && s.len() > 0 && s[0] == '-';
    let signed = minus || (s.len() > 0 && s[0] == '+');
    let digits = if signed {
        s.drop_first()
    } else {
        s
    };
    let value = if minus {
        -digits_value(digits)
    } else {
        digits_value(digits)
    };
    if all_digits(digits) && low <= value <= high {
        Some(value)
    } else {
        None
    }
}

/// A character has Unicode's White_Space property.
pub open spec fn whitespace(c: char) -> bool {
    let n = c as int;
    ||| 0x9 <= n <= 0xd
    ||| n == 0x20
    ||| n == 0x85
    ||| n == 0xa0
    ||| n == 0x1680
    ||| 0x2000 <= n <= 0x200a
    ||| n == 0x2028
    ||| n == 0x2029
    ||| n == 0x202f
    ||| n == 0x205f
    ||| n == 0x3000
}

/// A text in lower case, as `str::to_lowercase` writes it.
pub uninterp spec fn lower_case(s: Seq<char>) -> Seq<char>;

/// A text in upper case, as `str::to_uppercase` writes it.
pub uninterp spec fn upper_case(s: Seq<char>) -> Seq<char>;

/// `s` without the leading whitespace.
pub open spec fn trim_start(s: Seq<char>) -> Seq<char>
    decreases s.len(),
{
    if s.len() > 0 && whitespace(s[0]) {
        trim_start(s.drop_first())
    } else {
        s
    }
}

/// `s` without the trailing whitespace.
pub open spec fn trim_end(s: Seq<char>) -> Seq<char>
    decreases s.len(),
{
    if s.len() > 0 && whitespace(s.last()) {
        trim_end(s.drop_last())
    } else {
        s
    }
}

/// `s` without whitespace at either end.
pub open spec fn trimmed(s: Seq<char>) -> Seq<char> {
    trim_end(trim_start(s))
}

/// `s` with every repetition of `prefix` taken off its start.
pub open spec fn without_prefixes(s: Seq<char>, prefix: Seq<char>) -> Seq<char>
    decreases s.len(),
{
    if prefix.len() > 0 && prefix.is_prefix_of(s) {
        without_prefixes(s.skip(prefix.len() as int), prefix)
    } else {
        s
    }
}

/// `c` with an ASCII capital replaced by the small letter.
pub open spec fn ascii_lower(c: char) -> char {
    if 'A' <= c && c <= 'Z' {
        (c as int + 32) as char
    } else {
        c
    }
}

/// `c` with an ASCII small letter replaced by the capital.
pub open spec fn ascii_upper(c: char) -> char {
    if 'a' <= c && c <= 'z' {
        (c as int - 32) as char
    } else {
        c
    }
}

/// Every character of `s` is ASCII.
pub open spec fn ascii_only(s: Seq<char>) -> bool {
    forall|i: int| 0 <= i < s.len() ==> (#[trigger] s[i] as int) < 128
}

/// `c` is a hexadecimal digit.
pub open spec fn is_hex_digit(c: char) -> bool {
    is_digit(c) || ('a' <= c && c <= 'f') || ('A' <= c && c <= 'F')
}

/// Two texts are the same but for the case of ASCII letters.
pub open spec fn same_but_for_case(a: Seq<char>, b: Seq<char>) -> bool {
    a.map_values(|c: char| ascii_lower(c)) == b.map_values(|c: char| ascii_lower(c))
}

/// The digits that write a number.
pub open spec fn number_digits(n: int) -> Seq<char>
    decreases n,
{
    if n < 10 {
        seq![('0' as int + n) as char]
    } else {
        number_digits(n / 10).push(('0' as int + n % 10) as char)
    }
}

/// The view of an optional text.
pub open spec fn text_option(s: Option<String>) -> Option<Seq<char>> {
    match s {
        Some(x) => Some(x@),
        None => None,
    }
}

/// The views of a list of texts.
pub open spec fn texts(v: Seq<String>) -> Seq<Seq<char>> {
    v.map_values(|s: String| s@)
}

/// The characters of a text.
pub fn characters(s: &str) -> (r: Vec<char>)
    ensures
        r@ == s@,
{
    let mut out: Vec<char> = Vec::new();
    for c in iter: s.chars()
        invariant
            iter.seq() == s@,
            out@ == s@.take(iter.index() as int),
    {
        out.push(c);
        assert(out@ =~= s@.take(iter.index() + 1));
    }
    assert(s@.take(s@.len() as int) =~= s@);
    out
}

/// Whether two texts are the same.
pub fn same_text(a: &str, b: &str) -> (r: bool)
    ensures
        r == (a@ == b@),
{
    a.to_string() == b.to_string()
}

/// Whether `part` stands in `s` at position `at`.
fn stands_at(part: &Vec<char>, s: &Vec<char>, at: usize) -> (r: bool)
    requires
        at + part@.len() <= s@.len(),
    ensures
        r == (s@.subrange(at as int, at + part@.len()) == part@),
{
    let total: usize = s.len();
    let mut i: usize = 0;
    while i < part.len()
        invariant
            0 <= i <= part@.len(),
            at + part@.len() <= total,
            total == s@.len(),
            forall|j: int| 0 <= j < i ==> s@[at + j] == part@[j],
        decreases part@.len() - i,
    {
        if s[at + i] != part[i] {
            assert(s@.subrange(at as int, at + part@.len())[i as int] != part@[i as int]);
            return false;
        }
        i += 1;
    }
    assert(s@.subrange(at as int, at + part@.len()) =~= part@);
    true
}

/// Whether `s` starts with `prefix`.
pub fn starts_with(s: &str, prefix: &str) -> (r: bool)
    ensures
        r == prefix@.is_prefix_of(s@),
{
    let whole = characters(s);
    let part = characters(prefix);
    if part.len() > whole.len() {
        return false;
    }
    stands_at(&part, &whole, 0)
}

/// Whether `part` stands somewhere in `s`.
pub fn contains(s: &str, part: &str) -> (r: bool)
    ensures
        r == occurs_in(part@, s@),
{
    let whole = characters(s);
    let piece = characters(part);
    if piece.len() > whole.len() {
        return false;
    }
    let last: usize = whole.len() - piece.len();
    let mut i: usize = 0;
    while i <= last
        invariant
            whole@ == s@,
            piece@ == part@,
            last == whole@.len() - piece@.len(),
            i <= last + 1,
            forall|j: int|
                0 <= j < i ==> #[trigger] s@.subrange(j, j + part@.len()) != part@,
        decreases last + 1 - i,
    {
        if stands_at(&piece, &whole, i) {
            assert(s@.subrange(i as int, i + part@.len()) == part@);
            return true;
        }
        if i == last {
            assert(!occurs_in(part@, s@)) by {
                assert forall|j: int|
                    0 <= j && j + part@.len() <= s@.len() implies #[trigger] s@.subrange(
                    j,
                    j + part@.len(),
                ) != part@ by {}
            }
            return false;
        }
        i += 1;
    }
    false
}

/// What follows the last `sep` in `s`.
pub fn rest_after_last(s: &str, sep: char) -> (r: String)
    ensures
        r@ == after_last(s@, sep),
{
    let whole = characters(s);
    let mut i: usize = whole.len();
    while i > 0 && whole[i - 1] != sep
        invariant
            whole@ == s@,
            i <= s@.len(),
            forall|j: int| i <= j < s@.len() ==> s@[j] != sep,
        decreases i,
    {
        i -= 1;
    }
    proof {
        lemma_after_last(s@, sep, i as int);
    }
    s.substring_char(i, whole.len()).to_string()
}

proof fn lemma_after_last(s: Seq<char>, sep: char, i: int)
    requires
        0 <= i <= s.len(),
        forall|j: int| i <= j < s.len() ==> s[j] != sep,
        i == 0 || s[i - 1] == sep,
    ensures
        after_last(s, sep) == s.subrange(i, s.len() as int),
    decreases s.len(),
{
    if s.len() == 0 || i == s.len() {
        assert(s.subrange(i, s.len() as int) =~= Seq::empty());
    } else {
        assert(s.last() != sep);
        lemma_after_last(s.drop_last(), sep, i);
        assert(s.drop_last().subrange(i, s.len() - 1).push(s.last()) =~= s.subrange(
            i,
            s.len() as int,
        ));
    }
}

proof fn lemma_digits_value_grows(s: Seq<char>, n: int)
    requires
        0 <= n <= s.len(),
        forall|i: int| 0 <= i < s.len() ==> is_digit(#[trigger] s[i]),
    ensures
        0 <= digits_value(s.take(n)) <= digits_value(s),
    decreases s.len(),
{
    if n == s.len() {
        assert(s.take(n) =~= s);
        if s.len() > 0 {
            lemma_digits_value_grows(s.drop_last(), n - 1);
        }
    } else {
        lemma_digits_value_grows(s.drop_last(), n);
        assert(s.drop_last().take(n) =~= s.take(n));
        assert(is_digit(s.last()));
    }
}

/// The number that the characters from `from` on write, if they are digits.
fn digits_from(s: &Vec<char>, from: usize) -> (r: Option<u64>)
    requires
        from <= s@.len(),
    ensures
        match r {
            Some(v) => all_digits(s@.skip(from as int)) && v == digits_value(s@.skip(from as int)),
            None => !all_digits(s@.skip(from as int)) || digits_value(s@.skip(from as int))
                > u64::MAX,
        },
{
    let ghost tail = s@.skip(from as int);
    if from == s.len() {
        return None;
    }
    let mut value: u64 = 0;
    let mut i: usize = from;
    assert(tail.take(0) =~= Seq::empty());
    while i < s.len()
        invariant
            tail == s@.skip(from as int),
            from <= i <= s@.len(),
            from < s@.len(),
            forall|j: int| 0 <= j < i - from ==> is_digit(#[trigger] tail[j]),
            value == digits_value(tail.take(i - from)),
        decreases s@.len() - i,
    {
        let c: char = s[i];
        assert(tail[i - from] == c);
        if !('0' <= c && c <= '9') {
            return None;
        }
        let d: u64 = (c as u32 - '0' as u32) as u64;
        proof {
            let next = tail.take(i - from + 1);
            assert(next.drop_last() =~= tail.take(i - from));
            assert(next.last() == c);
            assert(digits_value(next) == 10 * value + d);
        }
        if value > u64::MAX / 10 || value * 10 > u64::MAX - d {
            proof {
                if all_digits(tail) {
                    lemma_digits_value_grows(tail, i - from + 1);
                }
            }
            return None;
        }
        value = value * 10 + d;
        i += 1;
    }
    assert(tail.take(tail.len() as int) =~= tail);
    Some(value)
}

/// Reads an `i64`.
pub fn parse_i64(s: &str) -> (r: Option<i64>)
    ensures
        match r {
            Some(v) => integer_text(s@, i64::MIN as int, i64::MAX as int) == Some(v as int),
            None => integer_text(s@, i64::MIN as int, i64::MAX as int) is None,
        },
{
    let whole = characters(s);
    let minus: bool = whole.len() > 0 && whole[0] == '-';
    let signed: bool = minus || (whole.len() > 0 && whole[0] == '+');
    assert(s@.skip(0) =~= s@);
    assert(s@.len() > 0 ==> s@.skip(1) =~= s@.drop_first());
    let found = if signed {
        digits_from(&whole, 1)
    } else {
        digits_from(&whole, 0)
    };
    match found {
        None => None,
        Some(v) => {
            if minus {
                if v <= 0x7fff_ffff_ffff_ffff {
                    Some(-(v as i64))
                } else if v == 0x8000_0000_0000_0000 {
                    Some(i64::MIN)
                } else {
                    None
                }
            } else if v <= 0x7fff_ffff_ffff_ffff {
                Some(v as i64)
            } else {
                None
            }
        },
    }
}

/// Reads a `u64`.
pub fn parse_u64(s: &str) -> (r: Option<u64>)
    ensures
        match r {
            Some(v) => integer_text(s@, 0, u64::MAX as int) == Some(v as int),
            None => integer_text(s@, 0, u64::MAX as int) is None,
        },
{
    let whole = characters(s);
    let signed: bool = whole.len() > 0 && whole[0] == '+';
    assert(s@.skip(0) =~= s@);
    assert(s@.len() > 0 ==> s@.skip(1) =~= s@.drop_first());
    let found = if signed {
        digits_from(&whole, 1)
    } else {
        digits_from(&whole, 0)
    };
    proof {
        if all_digits(s@) {
            lemma_digits_value_grows(s@, s@.len() as int);
        }
        if s@.len() > 0 && all_digits(s@.drop_first()) {
            lemma_digits_value_grows(s@.drop_first(), s@.len() - 1);
        }
    }
    found
}

/// Reads a `u32`.
pub fn parse_u32(s: &str) -> (r: Option<u32>)
    ensures
        match r {
            Some(v) => integer_text(s@, 0, u32::MAX as int) == Some(v as int),
            None => integer_text(s@, 0, u32::MAX as int) is None,
        },
{
    match parse_u64(s) {
        Some(v) => if v <= u32::MAX as u64 {
            Some(v as u32)
        } else {
            None
        },
        None => None,
    }
}

proof fn lemma_trim_start(s: Seq<char>, i: int)
    requires
        0 <= i <= s.len(),
        forall|j: int| 0 <= j < i ==> whitespace(#[trigger] s[j]),
        i == s.len() || !whitespace(s[i]),
    ensures
        trim_start(s) == s.skip(i),
    decreases s.len(),
{
    if i == 0 {
        assert(s.skip(0) =~= s);
    } else {
        let t = s.drop_first();
        assert(whitespace(s[0]));
        assert forall|j: int| 0 <= j < i - 1 implies whitespace(#[trigger] t[j]) by {
            assert(t[j] == s[j + 1]);
        }
        lemma_trim_start(t, i - 1);
        assert(t.skip(i - 1) =~= s.skip(i));
    }
}

proof fn lemma_trim_end(s: Seq<char>, n: int)
    requires
        0 <= n <= s.len(),
        forall|j: int| n <= j < s.len() ==> whitespace(#[trigger] s[j]),
        n == 0 || !whitespace(s[n - 1]),
    ensures
        trim_end(s) == s.take(n),
    decreases s.len(),
{
    if n == s.len() {
        assert(s.take(n) =~= s);
    } else {
        lemma_trim_end(s.drop_last(), n);
        assert(whitespace(s.last()));
        assert(s.drop_last().take(n) =~= s.take(n));
    }
}

/// `s` without whitespace at either end.
pub fn trim(s: &str) -> (r: &str)
    ensures
        r@ == trimmed(s@),
{
    let whole = characters(s);
    let mut from: usize = 0;
    while from < whole.len() && is_whitespace(whole[from])
        invariant
            whole@ == s@,
            from <= s@.len(),
            forall|j: int| 0 <= j < from ==> whitespace(#[trigger] s@[j]),
        decreases s@.len() - from,
    {
        from += 1;
    }
    proof {
        lemma_trim_start(s@, from as int);
    }
    let ghost rest = s@.skip(from as int);
    let mut to: usize = whole.len();
    while to > from && is_whitespace(whole[to - 1])
        invariant
            whole@ == s@,
            from <= to <= s@.len(),
            rest == s@.skip(from as int),
            forall|j: int| to - from <= j < rest.len() ==> whitespace(#[trigger] rest[j]),
        decreases to,
    {
        assert(rest[to - 1 - from] == s@[to - 1]);
        to -= 1;
    }
    proof {
        assert(to > from ==> rest[to - from - 1] == s@[to - 1]);
        lemma_trim_end(rest, to - from);
        assert(rest.take(to - from) =~= s@.subrange(from as int, to as int));
    }
    s.substring_char(from, to)
}

/// `s` with every repetition of `prefix` taken off its start.
pub fn strip_prefixes(s: &str, prefix: &str) -> (r: String)
    ensures
        r@ == without_prefixes(s@, prefix@),
{
    let whole = characters(s);
    let part = characters(prefix);
    let mut at: usize = 0;
    assert(s@.skip(0) =~= s@);
    if part.len() == 0 {
        return s.to_string();
    }
    while part.len() <= whole.len() - at && stands_at(&part, &whole, at)
        invariant
            whole@ == s@,
            part@ == prefix@,
            part@.len() > 0,
            at <= s@.len(),
            without_prefixes(s@.skip(at as int), prefix@) == without_prefixes(s@, prefix@),
        decreases s@.len() - at,
    {
        proof {
            let rest = s@.skip(at as int);
            assert(rest.take(part@.len() as int) =~= s@.subrange(at as int, at + part@.len()));
            assert(prefix@ =~= rest.take(part@.len() as int));
            assert(prefix@.is_prefix_of(rest));
            assert(rest.skip(part@.len() as int) =~= s@.skip(at + part@.len()));
        }
        at += part.len();
    }
    proof {
        let rest = s@.skip(at as int);
        if prefix@.is_prefix_of(rest) {
            assert(rest.take(part@.len() as int) =~= s@.subrange(at as int, at + part@.len()));
            assert(false);
        }
        assert(s@.subrange(at as int, s@.len() as int) =~= rest);
    }
    s.substring_char(at, whole.len()).to_string()
}

/// Whether every character of `s` is a hexadecimal digit.
pub fn all_hex_digits(s: &str) -> (r: bool)
    ensures
        r == (forall|i: int| 0 <= i < s@.len() ==> is_hex_digit(#[trigger] s@[i])),
{
    let whole = characters(s);
    let mut i: usize = 0;
    while i < whole.len()
        invariant
            whole@ == s@,
            i <= s@.len(),
            forall|j: int| 0 <= j < i ==> is_hex_digit(#[trigger] s@[j]),
        decreases s@.len() - i,
    {
        let c: char = whole[i];
        let digit: bool = '0' <= c && c <= '9';
        let hex: bool = digit || ('a' <= c && c <= 'f') || ('A' <= c && c <= 'F');
        if !hex {
            assert(!is_hex_digit(s@[i as int]));
            return false;
        }
        i += 1;
    }
    true
}

/// `c` with an ASCII capital replaced by the small letter.
fn lower_char(c: char) -> (r: char)
    ensures
        r == ascii_lower(c),
{
    match c {
        'A' => 'a',
        'B' => 'b',
        'C' => 'c',
        'D' => 'd',
        'E' => 'e',
        'F' => 'f',
        'G' => 'g',
        'H' => 'h',
        'I' => 'i',
        'J' => 'j',
        'K' => 'k',
        'L' => 'l',
        'M' => 'm',
        'N' => 'n',
        'O' => 'o',
        'P' => 'p',
        'Q' => 'q',
        'R' => 'r',
        'S' => 's',
        'T' => 't',
        'U' => 'u',
        'V' => 'v',
        'W' => 'w',
        'X' => 'x',
        'Y' => 'y',
        'Z' => 'z',
        other => other,
    }
}

/// Whether two texts are the same but for the case of ASCII letters.
pub fn same_ignoring_case(a: &str, b: &str) -> (r: bool)
    ensures
        r == same_but_for_case(a@, b@),
{
    let x = characters(a);
    let y = characters(b);
    let ghost low_a = a@.map_values(|c: char| ascii_lower(c));
    let ghost low_b = b@.map_values(|c: char| ascii_lower(c));
    if x.len() != y.len() {
        assert(low_a.len() != low_b.len());
        return false;
    }
    let mut i: usize = 0;
    while i < x.len()
        invariant
            x@ == a@,
            y@ == b@,
            x@.len() == y@.len(),
            i <= x@.len(),
            low_a == a@.map_values(|c: char| ascii_lower(c)),
            low_b == b@.map_values(|c: char| ascii_lower(c)),
            forall|j: int| 0 <= j < i ==> #[trigger] low_a[j] == low_b[j],
        decreases x@.len() - i,
    {
        if lower_char(x[i]) != lower_char(y[i]) {
            assert(low_a[i as int] != low_b[i as int]);
            return false;
        }
        i += 1;
    }
    assert(low_a =~= low_b);
    true
}

/// One digit as text.
fn digit_text(d: u64) -> (r: &'static str)
    requires
        d < 10,
    ensures
        r@ == seq![('0' as int + d) as char],
{
    proof {
        reveal_strlit("0");
        reveal_strlit("1");
        reveal_strlit("2");
        reveal_strlit("3");
        reveal_strlit("4");
        reveal_strlit("5");
        reveal_strlit("6");
        reveal_strlit("7");
        reveal_strlit("8");
        reveal_strlit("9");
    }
    let r: &'static str = match d {
        0 => "0",
        1 => "1",
        2 => "2",
        3 => "3",
        4 => "4",
        5 => "5",
        6 => "6",
        7 => "7",
        8 => "8",
        _ => "9",
    };
    assert(r@ =~= seq![('0' as int + d) as char]);
    r
}

/// Writes a number.
pub fn number_text(n: u64) -> (r: String)
    ensures
        r@ == number_digits(n as int),
    decreases n,
{
    if n < 10 {
        digit_text(n).to_string()
    } else {
        let mut s = number_text(n / 10);
        s.append(digit_text(n % 10));
        assert(s@ =~= number_digits(n as int));
        s
    }
}

/// Whether a character is whitespace.
pub fn is_whitespace(c: char) -> (r: bool)
    ensures
        r == whitespace(c),
{
    let n: u32 = c as u32;
    (0x9 <= n && n <= 0xd) || n == 0x20 || n == 0x85 || n == 0xa0 || n == 0x1680 || (0x2000 <= n
        && n <= 0x200a) || n == 0x2028 || n == 0x2029 || n == 0x202f || n == 0x205f || n == 0x3000
}

/// Calls `str::to_lowercase`. On ASCII text it changes the capitals only; what
/// it does to other text is left to the name.
#[verifier::external_body]
pub(crate) fn to_lowercase(s: &str) -> (r: String)
    ensures
        r@ == lower_case(s@),
        ascii_only(s@) ==> r@ == s@.map_values(|c: char| ascii_lower(c)),
{
    s.to_lowercase()
}

/// Calls `str::to_uppercase`. On ASCII text it changes the small letters only;
/// what it does to other text is left to the name.
#[verifier::external_body]
pub(crate) fn to_uppercase(s: &str) -> (r: String)
    ensures
        r@ == upper_case(s@),
        ascii_only(s@) ==> r@ == s@.map_values(|c: char| ascii_upper(c)),
{
    s.to_uppercase()
}

/// Law: a part stands in every text that it was put into, and in no other.
pub proof fn parts_occur(a: Seq<char>, part: Seq<char>, b: Seq<char>, s: Seq<char>)
    ensures
        occurs_in(part, a + part + b),
        s.len() < part.len() ==> !occurs_in(part, s),
        occurs_in(part, s) ==> exists|x: Seq<char>, y: Seq<char>| s == #[trigger] (x + part + y),
{
    let whole = a + part + b;
    let n = a.len() as int;
    assert(whole.subrange(n, n + part.len()) =~= part);
    if occurs_in(part, s) {
        let i = choose|i: int|
            0 <= i && i + part.len() <= s.len() && #[trigger] s.subrange(i, i + part.len()) == part;
        let (x, y) = (s.take(i), s.skip(i + part.len()));
        assert(s =~= x + part + y) by {
            assert forall|j: int| 0 <= j < s.len() implies s[j] == (x + part + y)[j] by {
                if i <= j < i + part.len() {
                    assert(s.subrange(i, i + part.len())[j - i] == s[j]);
                }
            }
        }
    }
}

/// Law: what follows the last separator holds none, and comes right after one; without a
/// separator it is all there is.
pub proof fn what_follows_the_last_separator(head: Seq<char>, tail: Seq<char>, sep: char)
    requires
        !tail.contains(sep),
    ensures
        after_last(head.push(sep) + tail, sep) == tail,
        after_last(tail, sep) == tail,
{
    let s = head.push(sep) + tail;
    assert forall|j: int| head.len() + 1 <= j < s.len() implies s[j] != sep by {
        assert(s[j] == tail[j - head.len() - 1]);
    }
    let at = head.len() as int + 1;
    lemma_after_last(s, sep, at);
    assert(s.subrange(at, s.len() as int) =~= tail);
    lemma_after_last(tail, sep, 0);
    assert(tail.subrange(0, tail.len() as int) =~= tail);
}

/// Law: the digits of a number are read back as that number, with a plus sign too and, with
/// a minus sign, as the number below zero that is as large; out of bounds nothing is read.
pub proof fn numbers_are_read_back(n: int, low: int, high: int)
    requires
        0 <= n,
        low <= 0,
    ensures
        all_digits(number_digits(n)),
        digits_value(number_digits(n)) == n,
        n <= high ==> integer_text(number_digits(n), low, high) == Some(n),
        n <= high ==> integer_text(seq!['+'] + number_digits(n), low, high) == Some(n),
        n > high ==> integer_text(number_digits(n), low, high) is None,
        low < 0 && low <= -n && -n <= high ==> integer_text(
            seq!['-'] + number_digits(n),
            low,
            high,
        ) == Some(-n),
        low == 0 || -n < low ==> integer_text(seq!['-'] + number_digits(n), low, high) is None,
{
    let d = number_digits(n);
    lemma_number_digits(n);
    assert(is_digit(d[0]));
    assert((seq!['+'] + d).drop_first() =~= d);
    let m = seq!['-'] + d;
    assert(m.drop_first() =~= d);
    assert(m[0] == '-');
    if low == 0 {
        assert(!is_digit(m[0]));
    }
}

/// The digits of a number are digits, and write it.
proof fn lemma_number_digits(n: int)
    requires
        0 <= n,
    ensures
        all_digits(number_digits(n)),
        digits_value(number_digits(n)) == n,
    decreases n,
{
    let d = number_digits(n);
    if n < 10 {
        assert(d.drop_last() =~= Seq::empty());
        assert(digits_value(d.drop_last()) == 0);
        assert(d.last() as int == '0' as int + n);
    } else {
        let rest = number_digits(n / 10);
        lemma_number_digits(n / 10);
        assert(d.drop_last() =~= rest);
        assert(d.last() as int == '0' as int + n % 10);
        assert forall|i: int| 0 <= i < d.len() implies is_digit(#[trigger] d[i]) by {
            if i < rest.len() {
                assert(d[i] == rest[i]);
            }
        }
    }
}

/// Law: only digits are read, after a sign or without one, and each digit weighs ten times
/// the next.
pub proof fn only_digits_are_read(s: Seq<char>, c: char, low: int, high: int)
    ensures
        integer_text(s, low, high) matches Some(v) ==> {
            let signed = s[0] == '+' || s[0] == '-';
            &&& s.len() > 0
            &&& low <= v <= high
            &&& forall|i: int|
                (if signed {
                    1
                } else {
                    0int
                }) <= i < s.len() ==> '0' <= #[trigger] s[i] && s[i] <= '9'
            &&& signed ==> s.len() > 1
        },
        digits_value(Seq::empty()) == 0,
        digits_value(s.push(c)) == 10 * digits_value(s) + (c as int - '0' as int),
{
    assert(s.push(c).drop_last() =~= s);
    if integer_text(s, low, high) is Some {
        let signed = s[0] == '+' || s[0] == '-';
        assert forall|i: int|
            (if signed {
                1
            } else {
                0int
            }) <= i < s.len() implies '0' <= #[trigger] s[i] && s[i] <= '9' by {
            if signed {
                if low < 0 || s[0] == '+' {
                    assert(s.drop_first()[i - 1] == s[i]);
                    assert(is_digit(s.drop_first()[i - 1]));
                } else {
                    assert(is_digit(s[0]));
                }
            } else {
                assert(is_digit(s[i]));
            }
        }
        if signed && low >= 0 && s[0] == '-' {
            assert(is_digit(s[0]));
        }
    }
}

/// Law: trimming takes whitespace off both ends, all of it and nothing else.
pub proof fn trimming_takes_the_whitespace_off(before: Seq<char>, s: Seq<char>, after: Seq<char>)
    requires
        forall|i: int| 0 <= i < before.len() ==> whitespace(#[trigger] before[i]),
        forall|i: int| 0 <= i < after.len() ==> whitespace(#[trigger] after[i]),
        s.len() > 0 ==> !whitespace(s[0]) && !whitespace(s.last()),
    ensures
        trimmed(before + s + after) == s,
{
    let whole = before + s + after;
    let n = before.len() as int;
    if s.len() > 0 {
        assert(whole[n] == s[0]);
        lemma_trim_start(whole, n);
        let rest = whole.skip(n);
        assert(rest =~= s + after);
        assert(rest[s.len() - 1] == s.last());
        assert forall|j: int| s.len() <= j < rest.len() implies whitespace(#[trigger] rest[j]) by {
            assert(rest[j] == after[j - s.len()]);
        }
        lemma_trim_end(rest, s.len() as int);
        assert(rest.take(s.len() as int) =~= s);
    } else {
        assert forall|j: int| 0 <= j < whole.len() implies whitespace(#[trigger] whole[j]) by {
            if j < n {
                assert(whole[j] == before[j]);
            } else {
                assert(whole[j] == after[j - n]);
            }
        }
        lemma_trim_start(whole, whole.len() as int);
        assert(whole.skip(whole.len() as int) =~= s);
        lemma_trim_end(s, 0);
        assert(s.take(0) =~= s);
    }
}

/// Law: spaces, tabs and the ends of lines are whitespace, as are the other characters that
/// Unicode counts among it; letters, digits and signs are not.
pub proof fn whitespace_is_that_of_unicode(c: char)
    ensures
        whitespace(' '),
        whitespace('\t'),
        whitespace('\n'),
        whitespace('\r'),
        (c as int) < 0x80 ==> (whitespace(c) <==> c == ' ' || 0x9 <= c as int <= 0xd),
        0x80 <= c as int <= 0xff ==> (whitespace(c) <==> c as int == 0x85 || c as int == 0xa0),
        0x100 <= c as int ==> (whitespace(c) <==> c as int == 0x1680 || 0x2000 <= c as int <= 0x200a
            || c as int == 0x2028 || c as int == 0x2029 || c as int == 0x202f || c as int == 0x205f
            || c as int == 0x3000),
{
}

/// Law: every repetition of a prefix comes off: one more makes no difference, and what is
/// left does not start with it.
pub proof fn every_repetition_comes_off(s: Seq<char>, prefix: Seq<char>)
    requires
        prefix.len() > 0,
    ensures
        without_prefixes(prefix + s, prefix) == without_prefixes(s, prefix),
        !prefix.is_prefix_of(s) ==> without_prefixes(s, prefix) == s,
        !prefix.is_prefix_of(without_prefixes(s, prefix)),
    decreases s.len(),
{
    let more = prefix + s;
    assert(more.take(prefix.len() as int) =~= prefix);
    assert(prefix.is_prefix_of(more));
    assert(more.skip(prefix.len() as int) =~= s);
    if prefix.is_prefix_of(s) {
        every_repetition_comes_off(s.skip(prefix.len() as int), prefix);
    }
}

/// Law: among the ASCII characters the capitals and the small letters stand for each
/// other, and all else stands for itself.
pub proof fn letter_case_is_that_of_ascii(c: char)
    ensures
        'A' <= c && c <= 'Z' ==> ascii_lower(c) as int == c as int + ('a' as int - 'A' as int)
            && ascii_upper(c) == c && ascii_upper(ascii_lower(c)) == c,
        'a' <= c && c <= 'z' ==> ascii_upper(c) as int == c as int - ('a' as int - 'A' as int)
            && ascii_lower(c) == c && ascii_lower(ascii_upper(c)) == c,
        !('A' <= c && c <= 'Z') && !('a' <= c && c <= 'z') ==> ascii_lower(c) == c && ascii_upper(c)
            == c,
        is_hex_digit(c) <==> ('0' <= c && c <= '9') || ('a' <= c && c <= 'f') || ('A' <= c && c
            <= 'F'),
{
}

/// Law: texts are the same but for case where they are as long and each letter of the one
/// is that of the other, in either case.
pub proof fn same_but_for_case_is_letter_by_letter(a: Seq<char>, b: Seq<char>)
    ensures
        same_but_for_case(a, b) <==> a.len() == b.len() && forall|i: int|
            0 <= i < a.len() ==> {
                ||| #[trigger] a[i] == b[i]
                ||| 'A' <= a[i] && a[i] <= 'Z' && b[i] as int == a[i] as int + 32
                ||| 'A' <= b[i] && b[i] <= 'Z' && a[i] as int == b[i] as int + 32
            },
{
    let (x, y) = (
        a.map_values(|c: char| ascii_lower(c)),
        b.map_values(|c: char| ascii_lower(c)),
    );
    if x == y {
        assert(x.len() == y.len());
        assert forall|i: int| 0 <= i < a.len() implies {
            ||| #[trigger] a[i] == b[i]
            ||| 'A' <= a[i] && a[i] <= 'Z' && b[i] as int == a[i] as int + 32
            ||| 'A' <= b[i] && b[i] <= 'Z' && a[i] as int == b[i] as int + 32
        } by {
            assert(x[i] == y[i]);
            letter_case_is_that_of_ascii(a[i]);
            letter_case_is_that_of_ascii(b[i]);
        }
    }
    if a.len() == b.len() && forall|i: int|
        0 <= i < a.len() ==> {
            ||| #[trigger] a[i] == b[i]
            ||| 'A' <= a[i] && a[i] <= 'Z' && b[i] as int == a[i] as int + 32
            ||| 'A' <= b[i] && b[i] <= 'Z' && a[i] as int == b[i] as int + 32
        } {
        assert forall|i: int| 0 <= i < x.len() implies x[i] == y[i] by {
            assert(a[i] == b[i] || a[i] != b[i]);
            letter_case_is_that_of_ascii(a[i]);
            letter_case_is_that_of_ascii(b[i]);
        }
        assert(x =~= y);
    }
}

/// A text with a character that is not whitespace is not trimmed to nothing.
pub proof fn lemma_something_is_left(s: Seq<char>)
    requires
        exists|i: int| 0 <= i < s.len() && !whitespace(#[trigger] s[i]),
    ensures
        trimmed(s).len() > 0,
    decreases s.len(),
{
    let i = choose|i: int| 0 <= i < s.len() && !whitespace(#[trigger] s[i]);
    if whitespace(s[0]) {
        let rest = s.drop_first();
        assert(rest[i - 1] == s[i]);
        lemma_something_is_left(rest);
    } else {
        lemma_something_is_left_at_the_end(s, 0);
    }
}

/// Trimming the end stops at a character that is not whitespace.
proof fn lemma_something_is_left_at_the_end(s: Seq<char>, i: int)
    requires
        0 <= i < s.len(),
        !whitespace(s[i]),
    ensures
        trim_end(s).len() > i,
    decreases s.len(),
{
    if whitespace(s.last()) {
        assert(s.drop_last()[i] == s[i]);
        lemma_something_is_left_at_the_end(s.drop_last(), i);
    }
}

} // verus!
