//! Character-level helpers on strings: whitespace trimming, decimal
//! rendering and parsing, prefix tests and simple substitutions.

use vstd::prelude::*;

verus! {

broadcast use vstd::string::group_string_axioms;

/// The Unicode `White_Space` property: the characters that `char::is_whitespace`
/// and `str::trim` treat as whitespace.
pub open spec fn is_space(c: char) -> bool {
    let n = c as u32;
    ||| 0x9 <= n <= 0xd
    ||| n == 0x20
    ||| n == 0x85
    ||| n == 0xa0
    ||| n == 0x1680
    ||| 0x2000 <= n <= 0x200a
    ||| n == 0x2028
    ||| n == 0x2029
    ||| n == 0x202f
    ||| n == 0x205f
    ||| n == 0x3000
}

/// Tests one character for membership in the Unicode `White_Space` set.
pub fn is_space_char(c: char) -> (b: bool)
    ensures
        b == is_space(c),
{
    let n = c as u32;
    (0x9 <= n && n <= 0xd) || n == 0x20 || n == 0x85 || n == 0xa0 || n == 0x1680 || (0x2000 <= n
        && n <= 0x200a) || n == 0x2028 || n == 0x2029 || n == 0x202f || n == 0x205f || n == 0x3000
}

/// Appends one character to a string (`String::push`).
#[verifier::external_body]
pub(crate) fn push_char(s: &mut String, c: char)
    ensures
        final(s)@ == old(s)@.push(c),
{
    s.push(c);
}

/// The characters of a string slice, in order.
pub fn chars_of(s: &str) -> (v: Vec<char>)
    ensures
        v@ == s@,
{
    let mut v: Vec<char> = Vec::new();
    for c in it: s.chars()
        invariant
            v@ == it.seq().take(it.index() as int),
    {
        v.push(c);
    }
    v
}


/// `s` with its leading whitespace removed.
pub open spec fn trim_start(s: Seq<char>) -> Seq<char>
    decreases s.len(),
{
    if s.len() > 0 && is_space(s[0]) {
        trim_start(s.drop_first())
    } else {
        s
    }
}

/// `s` with its trailing whitespace removed.
pub open spec fn trim_end(s: Seq<char>) -> Seq<char>
    decreases s.len(),
{
    if s.len() > 0 && is_space(s.last()) {
        trim_end(s.drop_last())
    } else {
        s
    }
}

/// `s` with leading and trailing whitespace removed, as `str::trim` does.
pub open spec fn trim(s: Seq<char>) -> Seq<char> {
    trim_end(trim_start(s))
}

/// A string that trimming leaves as it is: empty, or neither starting nor
/// ending with whitespace.
pub open spec fn is_trimmed(s: Seq<char>) -> bool {
    s.len() == 0 || (!is_space(s[0]) && !is_space(s.last()))
}

/// The string made of the characters `v[lo..hi]`.
pub fn string_from_chars(v: &Vec<char>, lo: usize, hi: usize) -> (r: String)
    requires
        lo <= hi <= v.len(),
    ensures
        r@ == v@.subrange(lo as int, hi as int),
{
    let mut r = String::new();
    let mut i = lo;
    while i < hi
        invariant
            lo <= i <= hi <= v.len(),
            r@ == v@.subrange(lo as int, i as int),
        decreases hi - i,
    {
        push_char(&mut r, v[i]);
        assert(v@.subrange(lo as int, i + 1) =~= v@.subrange(lo as int, i as int).push(v@[i as int]));
        i = i + 1;
    }
    r
}

/// Removes leading and trailing whitespace (`str::trim`).
pub fn trim_str(s: &str) -> (r: String)
    ensures
        r@ == trim(s@),
{
    let v = chars_of(s);
    let n = v.len();
    let mut lo: usize = 0;
    assert(s@.subrange(0, n as int) =~= s@);
    while lo < n && is_space_char(v[lo])
        invariant
            v@ == s@,
            n == v.len(),
            lo <= n,
            trim_start(s@) == trim_start(s@.subrange(lo as int, n as int)),
        decreases n - lo,
    {
        assert(s@.subrange(lo as int, n as int).drop_first() =~= s@.subrange(lo + 1, n as int));
        lo = lo + 1;
    }
    assert(trim_start(s@) == s@.subrange(lo as int, n as int));
    let mut hi: usize = n;
    while hi > lo && is_space_char(v[hi - 1])
        invariant
            v@ == s@,
            n == v.len(),
            lo <= hi <= n,
            trim(s@) == trim_end(s@.subrange(lo as int, hi as int)),
        decreases hi - lo,
    {
        assert(s@.subrange(lo as int, hi as int).drop_last() =~= s@.subrange(lo as int, hi - 1));
        hi = hi - 1;
    }
    string_from_chars(&v, lo, hi)
}

/// Trimming the front of a string with one more character at its end.
pub proof fn lemma_trim_start_push(s: Seq<char>, c: char)
    ensures
        trim_start(s.push(c)) == if trim_start(s).len() > 0 {
            trim_start(s).push(c)
        } else {
            trim_start(seq![c])
        },
    decreases s.len(),
{
    let t = s.push(c);
    if s.len() == 0 {
        assert(t =~= seq![c]);
    } else {
        assert(t[0] == s[0]);
        if is_space(s[0]) {
            assert(t.drop_first() =~= s.drop_first().push(c));
            lemma_trim_start_push(s.drop_first(), c);
        }
    }
}

/// Whitespace at the end of a string does not change its trimmed form.
pub proof fn lemma_trim_push_space(s: Seq<char>, c: char)
    requires
        is_space(c),
    ensures
        trim(s.push(c)) == trim(s),
{
    lemma_trim_start_push(s, c);
    if trim_start(s).len() > 0 {
        assert(trim_start(s).push(c).drop_last() =~= trim_start(s));
    } else {
        assert(seq![c].drop_first() =~= Seq::<char>::empty());
        assert(trim_start(Seq::<char>::empty()) == Seq::<char>::empty());
        assert(trim_start(seq![c]) == Seq::<char>::empty());
        assert(trim_end(Seq::<char>::empty()) == Seq::<char>::empty());
    }
}

/// Trimming a trimmed string followed by a line break gives the string back.
pub proof fn lemma_trim_line(s: Seq<char>)
    requires
        is_trimmed(s),
    ensures
        trim(s.push('\n')) == s,
{
    let t = s.push('\n');
    if s.len() == 0 {
        assert(is_space(t[0]));
        assert(t.drop_first() =~= Seq::<char>::empty());
        assert(trim_start(Seq::<char>::empty()) == Seq::<char>::empty());
        assert(trim_start(t) == Seq::<char>::empty());
        assert(trim_end(Seq::<char>::empty()) == Seq::<char>::empty());
    } else {
        assert(t[0] == s[0]);
        assert(trim_start(t) == t);
        assert(t.drop_last() =~= s);
        assert(is_space(t.last()));
        assert(trim_end(s) == s);
        assert(trim_end(t) == trim_end(s));
    }
}


/// Where trimming the front stops: the first character that is not
/// whitespace, or the end.
proof fn lemma_trim_start_shape(s: Seq<char>) -> (lo: int)
    ensures
        0 <= lo <= s.len(),
        trim_start(s) == s.skip(lo),
        forall|i: int| 0 <= i < lo ==> is_space(#[trigger] s[i]),
        lo < s.len() ==> !is_space(s[lo]),
    decreases s.len(),
{
    if s.len() > 0 && is_space(s[0]) {
        let k = lemma_trim_start_shape(s.drop_first());
        assert(s.drop_first().skip(k) =~= s.skip(k + 1));
        assert forall|i: int| 0 <= i < k + 1 implies is_space(#[trigger] s[i]) by {
            if i > 0 {
                assert(s[i] == s.drop_first()[i - 1]);
            }
        }
        k + 1
    } else {
        assert(s.skip(0) =~= s);
        0
    }
}

/// Where trimming the back stops: after the last character that is not
/// whitespace, or at the start.
proof fn lemma_trim_end_shape(s: Seq<char>) -> (hi: int)
    ensures
        0 <= hi <= s.len(),
        trim_end(s) == s.take(hi),
        forall|i: int| hi <= i < s.len() ==> is_space(#[trigger] s[i]),
        hi > 0 ==> !is_space(s[hi - 1]),
    decreases s.len(),
{
    if s.len() > 0 && is_space(s.last()) {
        let k = lemma_trim_end_shape(s.drop_last());
        assert(s.drop_last().take(k) =~= s.take(k));
        assert forall|i: int| k <= i < s.len() implies is_space(#[trigger] s[i]) by {
            if i < s.len() - 1 {
                assert(s[i] == s.drop_last()[i]);
            }
        }
        k
    } else {
        assert(s.take(s.len() as int) =~= s);
        s.len() as int
    }
}

/// Trimming removes exactly the whitespace at both ends: what is left is a
/// contiguous part of the string, everything before and after it is
/// whitespace, and it neither starts nor ends with whitespace.
pub proof fn law_trim_removes_outer_whitespace(s: Seq<char>)
    ensures
        is_trimmed(trim(s)),
        exists|lo: int, hi: int|
            0 <= lo <= hi <= s.len() && trim(s) == s.subrange(lo, hi) && (forall|i: int|
                0 <= i < lo ==> is_space(#[trigger] s[i])) && (forall|i: int|
                hi <= i < s.len() ==> is_space(#[trigger] s[i])),
{
    let lo = lemma_trim_start_shape(s);
    let t = s.skip(lo);
    let h = lemma_trim_end_shape(t);
    assert(t.take(h) =~= s.subrange(lo, lo + h));
    assert forall|i: int| lo + h <= i < s.len() implies is_space(#[trigger] s[i]) by {
        assert(s[i] == t[i - lo]);
    }
    if h > 0 {
        assert(trim(s)[0] == s[lo]);
        assert(trim(s).last() == t[h - 1]);
    }
    assert(0 <= lo <= lo + h <= s.len() && trim(s) == s.subrange(lo, lo + h));
}

/// Whether `c` is one of the ASCII digits `0` to `9`.
pub open spec fn is_digit(c: char) -> bool {
    48 <= (c as u32) <= 57
}

/// The value of an ASCII digit.
pub open spec fn digit_value(c: char) -> nat {
    ((c as u32) - 48) as nat
}

/// The ASCII digit for a value below ten.
pub open spec fn digit_char(d: nat) -> char {
    if d == 0 {
        '0'
    } else if d == 1 {
        '1'
    } else if d == 2 {
        '2'
    } else if d == 3 {
        '3'
    } else if d == 4 {
        '4'
    } else if d == 5 {
        '5'
    } else if d == 6 {
        '6'
    } else if d == 7 {
        '7'
    } else if d == 8 {
        '8'
    } else {
        '9'
    }
}

/// The decimal rendering of `n`, without sign or leading zeros (as `{}` prints it).
pub open spec fn decimal(n: nat) -> Seq<char>
    decreases n,
{
    if n < 10 {
        seq![digit_char(n)]
    } else {
        decimal(n / 10).push(digit_char(n % 10))
    }
}

/// The ASCII digit for a value below ten.
pub fn digit_to_char(d: u64) -> (c: char)
    requires
        d < 10,
    ensures
        c == digit_char(d as nat),
{
    match d {
        0 => '0',
        1 => '1',
        2 => '2',
        3 => '3',
        4 => '4',
        5 => '5',
        6 => '6',
        7 => '7',
        8 => '8',
        _ => '9',
    }
}

/// Appends the decimal rendering of `n` to `out`.
pub fn push_decimal(out: &mut String, n: u64)
    ensures
        final(out)@ == old(out)@ + decimal(n as nat),
    decreases n,
{
    if n >= 10 {
        push_decimal(out, n / 10);
    }
    push_char(out, digit_to_char(n % 10));
    assert(out@ =~= old(out)@ + decimal(n as nat));
}

/// The decimal rendering of `n`.
pub fn decimal_string(n: u64) -> (r: String)
    ensures
        r@ == decimal(n as nat),
{
    let mut r = String::new();
    push_decimal(&mut r, n);
    assert(r@ =~= decimal(n as nat));
    r
}

/// Why a string is not the decimal rendering of a `usize`; the kinds that
/// `usize::from_str` reports.
#[derive(Clone, Copy, Debug, PartialEq, Eq)]
pub enum NumberError {
    /// The string is empty.
    Empty,
    /// A character is not a digit (or a sign stands alone).
    InvalidDigit,
    /// The value does not fit in a `usize`.
    Overflow,
}

/// One step of reading digits left to right into an accumulated value.
pub open spec fn digit_step(acc: nat, c: char) -> Result<nat, NumberError> {
    if !is_digit(c) {
        Err(NumberError::InvalidDigit)
    } else if acc * 10 + digit_value(c) > usize::MAX {
        Err(NumberError::Overflow)
    } else {
        Ok(acc * 10 + digit_value(c))
    }
}

/// Reads the digits of `rest` after the value `acc`, stopping at the first
/// character that is no digit or that makes the value overflow.
pub open spec fn read_digits(acc: nat, rest: Seq<char>) -> Result<nat, NumberError>
    decreases rest.len(),
{
    if rest.len() == 0 {
        Ok(acc)
    } else {
        match digit_step(acc, rest[0]) {
            Ok(v) => read_digits(v, rest.drop_first()),
            Err(e) => Err(e),
        }
    }
}

/// What `s.parse::<usize>()` gives: an optional `+`, then digits.
pub open spec fn parse_number(s: Seq<char>) -> Result<nat, NumberError> {
    if s.len() == 0 {
        Err(NumberError::Empty)
    } else if s.len() == 1 && (s[0] == '+' || s[0] == '-') {
        Err(NumberError::InvalidDigit)
    } else if s[0] == '+' {
        read_digits(0, s.drop_first())
    } else {
        read_digits(0, s)
    }
}

/// Parses a `usize` as `str::parse::<usize>` does.
pub fn parse_usize(s: &str) -> (r: Result<usize, NumberError>)
    ensures
        match r {
            Ok(x) => parse_number(s@) == Ok::<nat, NumberError>(x as nat),
            Err(e) => parse_number(s@) == Err::<nat, NumberError>(e),
        },
{
    let v = chars_of(s);
    let n = v.len();
    if n == 0 {
        return Err(NumberError::Empty);
    }
    if n == 1 && (v[0] == '+' || v[0] == '-') {
        return Err(NumberError::InvalidDigit);
    }
    let mut i: usize = if v[0] == '+' {
        1
    } else {
        0
    };
    let mut acc: usize = 0;
    assert(s@.drop_first() =~= s@.subrange(1, n as int));
    assert(s@ =~= s@.subrange(0, n as int));
    while i < n
        invariant
            v@ == s@,
            n == v.len(),
            i <= n,
            parse_number(s@) == read_digits(acc as nat, s@.subrange(i as int, n as int)),
        decreases n - i,
    {
        let c = v[i];
        let code = c as u32;
        if code < 48 || code > 57 {
            return Err(NumberError::InvalidDigit);
        }
        let d = (code - 48) as usize;
        let next = match acc.checked_mul(10) {
            Some(m) => m.checked_add(d),
            None => None,
        };
        match next {
            Some(x) => {
                assert(s@.subrange(i as int, n as int).drop_first() =~= s@.subrange(i + 1, n as int));
                acc = x;
            },
            None => {
                return Err(NumberError::Overflow);
            },
        }
        i = i + 1;
    }
    Ok(acc)
}

/// Reading one more character after a string of digits continues where the
/// string left off.
pub proof fn lemma_read_digits_push(acc: nat, s: Seq<char>, c: char)
    ensures
        read_digits(acc, s.push(c)) == match read_digits(acc, s) {
            Ok(v) => digit_step(v, c),
            Err(e) => Err(e),
        },
    decreases s.len(),
{
    let t = s.push(c);
    if s.len() == 0 {
        assert(t.drop_first() =~= Seq::<char>::empty());
        match digit_step(acc, c) {
            Ok(v) => {
                assert(read_digits(v, Seq::<char>::empty()) == Ok::<nat, NumberError>(v));
            },
            Err(e) => {},
        }
    } else {
        assert(t[0] == s[0]);
        assert(t.drop_first() =~= s.drop_first().push(c));
        match digit_step(acc, s[0]) {
            Ok(v) => {
                lemma_read_digits_push(v, s.drop_first(), c);
            },
            Err(e) => {},
        }
    }
}

/// The digits of a rendering are digits, and the first is never a sign.
pub proof fn lemma_decimal_digits(n: nat)
    ensures
        decimal(n).len() >= 1,
        forall|i: int| 0 <= i < decimal(n).len() ==> is_digit(#[trigger] decimal(n)[i]),
    decreases n,
{
    if n >= 10 {
        lemma_decimal_digits(n / 10);
    }
}

/// Parsing a rendering gives the number back.
pub proof fn lemma_parse_decimal(n: nat)
    requires
        n <= usize::MAX,
    ensures
        read_digits(0, decimal(n)) == Ok::<nat, NumberError>(n),
        parse_number(decimal(n)) == Ok::<nat, NumberError>(n),
    decreases n,
{
    lemma_decimal_digits(n);
    if n < 10 {
        assert(decimal(n).drop_first() =~= Seq::<char>::empty());
        assert(read_digits(n, Seq::<char>::empty()) == Ok::<nat, NumberError>(n));
    } else {
        lemma_parse_decimal(n / 10);
        lemma_read_digits_push(0, decimal(n / 10), digit_char(n % 10));
    }
    assert(is_digit(decimal(n)[0]));
}


/// Digits that read without error are all digits.
proof fn lemma_read_digits_ok(acc: nat, rest: Seq<char>)
    requires
        read_digits(acc, rest) is Ok,
    ensures
        forall|i: int| 0 <= i < rest.len() ==> is_digit(#[trigger] rest[i]),
    decreases rest.len(),
{
    if rest.len() > 0 {
        let v = digit_step(acc, rest[0])->Ok_0;
        lemma_read_digits_ok(v, rest.drop_first());
        assert forall|i: int| 0 <= i < rest.len() implies is_digit(#[trigger] rest[i]) by {
            if i > 0 {
                assert(rest[i] == rest.drop_first()[i - 1]);
            }
        }
    }
}

/// A number parses from its decimal rendering, with or without a leading
/// `+`; the empty text is refused as empty, and a text that parses is digits
/// after at most one leading `+`.
pub proof fn law_parse_number(s: Seq<char>, n: nat)
    requires
        n <= usize::MAX,
    ensures
        parse_number(Seq::<char>::empty()) == Err::<nat, NumberError>(NumberError::Empty),
        parse_number(decimal(n)) == Ok::<nat, NumberError>(n),
        parse_number(seq!['+'] + decimal(n)) == Ok::<nat, NumberError>(n),
        parse_number(s) is Ok ==> s.len() > 0 && forall|i: int|
            (if s[0] == '+' { 1int } else { 0int }) <= i < s.len() ==> is_digit(#[trigger] s[i]),
{
    lemma_parse_decimal(n);
    let p = seq!['+'] + decimal(n);
    assert(p.drop_first() =~= decimal(n));
    assert(p.len() >= 2);
    if parse_number(s) is Ok {
        if s[0] == '+' {
            lemma_read_digits_ok(0, s.drop_first());
            assert forall|i: int| 1 <= i < s.len() implies is_digit(#[trigger] s[i]) by {
                assert(s[i] == s.drop_first()[i - 1]);
            }
        } else {
            lemma_read_digits_ok(0, s);
        }
    }
}

/// Whether `s` begins with `p`.
pub open spec fn has_prefix(s: Seq<char>, p: Seq<char>) -> bool {
    p.len() <= s.len() && s.subrange(0, p.len() as int) == p
}

/// Whether `s` begins with `p` (`str::starts_with`).
pub fn starts_with(s: &str, p: &str) -> (b: bool)
    ensures
        b == has_prefix(s@, p@),
{
    let sv = chars_of(s);
    let pv = chars_of(p);
    if pv.len() > sv.len() {
        return false;
    }
    let mut i: usize = 0;
    while i < pv.len()
        invariant
            sv@ == s@,
            pv@ == p@,
            pv.len() <= sv.len(),
            i <= pv.len(),
            forall|j: int| 0 <= j < i ==> sv@[j] == pv@[j],
        decreases pv.len() - i,
    {
        if sv[i] != pv[i] {
            assert(s@.subrange(0, p@.len() as int)[i as int] != p@[i as int]);
            return false;
        }
        i = i + 1;
    }
    assert(s@.subrange(0, p@.len() as int) =~= p@);
    true
}

/// `s` without its prefix `p`, if it has that prefix (`str::strip_prefix`).
pub fn strip_prefix(s: &str, p: &str) -> (r: Option<String>)
    ensures
        has_prefix(s@, p@) ==> r is Some && r->0@ == s@.skip(p@.len() as int),
        !has_prefix(s@, p@) ==> r is None,
{
    if starts_with(s, p) {
        let sv = chars_of(s);
        let k = chars_of(p).len();
        Some(string_from_chars(&sv, k, sv.len()))
    } else {
        None
    }
}

/// Whether two strings hold the same characters.
pub fn same_text(a: &str, b: &str) -> (r: bool)
    ensures
        r == (a@ == b@),
{
    let x = String::from_str(a);
    let y = String::from_str(b);
    x == y
}

/// `s` with every `from` replaced by `to`.
pub open spec fn replace_char(s: Seq<char>, from: char, to: char) -> Seq<char> {
    s.map_values(|c: char| if c == from { to } else { c })
}

/// Replaces every occurrence of one character by another (`str::replace`
/// with one-character patterns).
pub fn replace_chars(s: &str, from: char, to: char) -> (r: String)
    ensures
        r@ == replace_char(s@, from, to),
{
    let v = chars_of(s);
    let mut r = String::new();
    let mut i: usize = 0;
    while i < v.len()
        invariant
            v@ == s@,
            i <= v.len(),
            r@ == replace_char(s@.subrange(0, i as int), from, to),
        decreases v.len() - i,
    {
        let c = v[i];
        push_char(&mut r, if c == from { to } else { c });
        assert(replace_char(s@.subrange(0, i + 1), from, to) =~= replace_char(
            s@.subrange(0, i as int),
            from,
            to,
        ).push(if c == from { to } else { c }));
        i = i + 1;
    }
    assert(s@.subrange(0, v.len() as int) =~= s@);
    r
}

/// The lower-case form of a string under Unicode case mapping, as
/// `str::to_lowercase` computes it.
pub uninterp spec fn lowercase(s: Seq<char>) -> Seq<char>;

/// Calls `str::to_lowercase`; its result is the Unicode lower-case mapping of
/// the argument, named `lowercase` here and not spelled out.
#[verifier::external_body]
pub(crate) fn to_lowercase(s: &str) -> (r: String)
    ensures
        r@ == lowercase(s@),
{
    s.to_lowercase()
}

} // verus!
