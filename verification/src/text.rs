//! Character and text helpers shared by the other modules.
//!
//! Text is modelled as `Seq<char>`. Executable code works on `Vec<char>` where it
//! needs random access and on `String` where a value is stored or handed out.

use vstd::prelude::*;

verus! {

/// `String::push` appends one character to the end of the string.
pub assume_specification[ String::push ](s: &mut String, c: char)
    ensures
        final(s)@ == old(s)@.push(c),
;

/// The byte of an ASCII character; `None` for a character outside ASCII.
pub fn as_ascii(c: char) -> (r: Option<u8>)
    ensures
        r == (if (c as u32) < 128 {
            Some(c as u8)
        } else {
            None::<u8>
        }),
{
    let code: u32 = c as u32;
    if code < 128 {
        Some(code as u8)
    } else {
        None
    }
}

/// The characters of a string slice, in order.
pub fn chars_of(s: &str) -> (v: Vec<char>)
    ensures
        v@ == s@,
{
    let mut v: Vec<char> = Vec::new();
    for c in it: s.chars()
        invariant
            it.seq() == s@,
            v@ =~= it.seq().take(it.index() as int),
    {
        v.push(c);
    }
    assert(v@ =~= s@);
    v
}

/// The string made of the characters `v[start..end]`.
/// Appends the characters of a string.
pub fn push_text(out: &mut Vec<char>, s: &str)
    ensures
        final(out)@ == old(out)@ + s@,
{
    let ghost before = out@;
    for c in it: s.chars()
        invariant
            it.seq() == s@,
            out@ =~= before + it.seq().take(it.index() as int),
    {
        out.push(c);
    }
    assert(s@.take(s@.len() as int) =~= s@);
}

/// The string of the characters `v[start..end]`.
pub fn string_of_range(v: &Vec<char>, start: usize, end: usize) -> (s: String)
    requires
        start <= end <= v.len(),
    ensures
        s@ == v@.subrange(start as int, end as int),
{
    let mut s = String::new();
    let mut i: usize = start;
    while i < end
        invariant
            start <= i <= end <= v.len(),
            s@ =~= v@.subrange(start as int, i as int),
        decreases end - i,
    {
        s.push(v[i]);
        i += 1;
    }
    s
}

/// The string made of the characters of `v`.
pub fn string_of(v: &Vec<char>) -> (s: String)
    ensures
        s@ == v@,
{
    let s = string_of_range(v, 0, v.len());
    assert(v@.subrange(0, v.len() as int) =~= v@);
    s
}

/// Whether a character is white space: a blank, a tab or the end of a line.
pub open spec fn is_space(c: char) -> bool {
    c == ' ' || c == '\t' || c == '\n' || c == '\r'
}

/// Whether a character is a decimal digit.
pub open spec fn is_digit(c: char) -> bool {
    '0' <= c && c <= '9'
}

/// Whether a character is an ASCII letter or an underscore.
pub open spec fn is_letter(c: char) -> bool {
    ('a' <= c && c <= 'z') || ('A' <= c && c <= 'Z') || c == '_'
}

/// Whether a character can stand in a name: a letter, an underscore or a digit.
pub open spec fn is_word(c: char) -> bool {
    is_letter(c) || is_digit(c)
}

/// Whether a character is white space.
#[verifier::when_used_as_spec(is_space)]
pub fn space(c: char) -> (r: bool)
    ensures
        r == is_space(c),
{
    c == ' ' || c == '\t' || c == '\n' || c == '\r'
}

/// Whether a character is a decimal digit.
#[verifier::when_used_as_spec(is_digit)]
pub fn digit(c: char) -> (r: bool)
    ensures
        r == is_digit(c),
{
    '0' <= c && c <= '9'
}

/// Whether a character is an ASCII letter or an underscore.
#[verifier::when_used_as_spec(is_letter)]
pub fn letter(c: char) -> (r: bool)
    ensures
        r == is_letter(c),
{
    ('a' <= c && c <= 'z') || ('A' <= c && c <= 'Z') || c == '_'
}

/// Whether a character can stand in a name.
#[verifier::when_used_as_spec(is_word)]
pub fn word(c: char) -> (r: bool)
    ensures
        r == is_word(c),
{
    letter(c) || digit(c)
}

/// The lower-case form of an ASCII letter; every other character is itself.
pub open spec fn lower(c: char) -> char {
    if 'A' <= c && c <= 'Z' {
        ((c as u8) + 32) as u8 as char
    } else {
        c
    }
}

/// The lower-case form of an ASCII letter; every other character is itself.
#[verifier::when_used_as_spec(lower)]
pub fn to_lower(c: char) -> (r: char)
    ensures
        r == lower(c),
{
    if 'A' <= c && c <= 'Z' {
        let b: u8 = c as u8;
        (b + 32) as char
    } else {
        c
    }
}

/// `s` with every ASCII letter in lower case.
pub open spec fn lower_seq(s: Seq<char>) -> Seq<char> {
    Seq::new(s.len(), |i: int| lower(s[i]))
}

/// The text with its ASCII letters in lower case.
pub fn to_lower_vec(v: &Vec<char>) -> (r: Vec<char>)
    ensures
        r@ == lower_seq(v@),
{
    let mut r: Vec<char> = Vec::new();
    let mut i: usize = 0;
    while i < v.len()
        invariant
            i <= v.len(),
            r@ =~= lower_seq(v@.take(i as int)),
        decreases v.len() - i,
    {
        r.push(to_lower(v[i]));
        i += 1;
    }
    assert(v@.take(v.len() as int) =~= v@);
    r
}

/// Whether `v[start..end]` and `other` hold the same characters.
pub fn range_equals(v: &Vec<char>, start: usize, end: usize, other: &Vec<char>) -> (r: bool)
    requires
        start <= end <= v.len(),
    ensures
        r == (v@.subrange(start as int, end as int) == other@),
{
    if end - start != other.len() {
        return false;
    }
    let mut i: usize = 0;
    while i < other.len()
        invariant
            start <= end <= v.len(),
            end - start == other.len(),
            i <= other.len(),
            forall|j: int| 0 <= j < i ==> v@[start + j] == other@[j],
        decreases other.len() - i,
    {
        if v[start + i] != other[i] {
            assert(v@.subrange(start as int, end as int)[i as int] != other@[i as int]);
            return false;
        }
        i += 1;
    }
    assert(v@.subrange(start as int, end as int) =~= other@);
    true
}

/// The character of a decimal digit `d`, `0 <= d <= 9`.
pub open spec fn digit_char(d: int) -> char {
    (48 + d) as u8 as char
}

/// The value of a decimal digit character.
pub open spec fn digit_value(c: char) -> int {
    (c as u8) as int - 48
}

/// The decimal numeral of `n`, without sign or leading zeros.
pub open spec fn decimal(n: nat) -> Seq<char>
    decreases n,
{
    if n < 10 {
        seq![digit_char(n as int)]
    } else {
        decimal(n / 10).push(digit_char((n % 10) as int))
    }
}

/// The decimal numeral of `i`, with a leading `-` when it is negative.
pub open spec fn decimal_int(i: int) -> Seq<char> {
    if i < 0 {
        seq!['-'] + decimal((-i) as nat)
    } else {
        decimal(i as nat)
    }
}

/// Two numbers with the same decimal numeral are the same number.
pub proof fn lemma_decimal_injective(a: nat, b: nat)
    requires
        decimal(a) == decimal(b),
    ensures
        a == b,
    decreases a,
{
    lemma_decimal_len(a);
    lemma_decimal_len(b);
    lemma_digit_char((a % 10) as int);
    lemma_digit_char((b % 10) as int);
    if a < 10 && b < 10 {
        assert(decimal(a)[0] == digit_char(a as int));
        assert(decimal(b)[0] == digit_char(b as int));
    } else if a < 10 {
        assert(decimal(a).len() == 1);
    } else if b < 10 {
        assert(decimal(b).len() == 1);
    } else {
        let da = decimal(a / 10);
        let db = decimal(b / 10);
        assert(decimal(a).drop_last() =~= da);
        assert(decimal(b).drop_last() =~= db);
        assert(decimal(a).last() == digit_char((a % 10) as int));
        assert(decimal(b).last() == digit_char((b % 10) as int));
        lemma_decimal_injective(a / 10, b / 10);
        assert(a % 10 == b % 10);
    }
}

/// The code of a digit's character is 48 more than the digit.
pub proof fn lemma_digit_char(d: int)
    requires
        0 <= d <= 9,
    ensures
        digit_char(d) as int == 48 + d,
        digit_value(digit_char(d)) == d,
        is_digit(digit_char(d)),
{
}

/// A decimal numeral has at least one character.
pub proof fn lemma_decimal_len(n: nat)
    ensures
        decimal(n).len() >= 1,
        n >= 10 ==> decimal(n).len() >= 2,
    decreases n,
{
    if n >= 10 {
        lemma_decimal_len(n / 10);
    }
}

/// Appends the decimal numeral of `n` to `out`.
pub fn push_decimal(out: &mut Vec<char>, n: u128)
    ensures
        final(out)@ == old(out)@ + decimal(n as nat),
    decreases n,
{
    if n >= 10 {
        push_decimal(out, n / 10);
    }
    let d: u8 = (n % 10) as u8;
    out.push((48 + d) as char);
    assert(final(out)@ =~= old(out)@ + decimal(n as nat));
}

/// Appends the decimal numeral of `i` to `out`, with `-` in front of a negative number.
pub fn push_decimal_int(out: &mut Vec<char>, i: i64)
    ensures
        final(out)@ == old(out)@ + decimal_int(i as int),
{
    if i < 0 {
        out.push('-');
        let wide: i128 = i as i128;
        let magnitude: u128 = (-wide) as u128;
        push_decimal(out, magnitude);
        assert(final(out)@ =~= old(out)@ + decimal_int(i as int));
    } else {
        push_decimal(out, i as u128);
    }
}

/// Lexicographic comparison of two texts by character code: negative, zero or
/// positive as `a` is less than, equal to or greater than `b`.
pub open spec fn text_order(a: Seq<char>, b: Seq<char>) -> int
    decreases a.len(),
{
    if a.len() == 0 {
        if b.len() == 0 {
            0
        } else {
            -1
        }
    } else if b.len() == 0 {
        1
    } else if a[0] < b[0] {
        -1
    } else if a[0] > b[0] {
        1
    } else {
        text_order(a.skip(1), b.skip(1))
    }
}

/// `text_order` is zero exactly on equal texts, and swapping its arguments flips
/// its sign.
pub proof fn lemma_text_order_sign(a: Seq<char>, b: Seq<char>)
    ensures
        -1 <= text_order(a, b) <= 1,
        text_order(a, b) == -text_order(b, a),
        text_order(a, b) == 0 <==> a == b,
    decreases a.len(),
{
    if a.len() > 0 && b.len() > 0 && a[0] == b[0] {
        lemma_text_order_sign(a.skip(1), b.skip(1));
        if a.skip(1) == b.skip(1) {
            assert(a =~= seq![a[0]] + a.skip(1));
            assert(b =~= seq![b[0]] + b.skip(1));
        }
    }
    if a.len() == 0 && b.len() == 0 {
        assert(a =~= b);
    }
}

/// `text_order` orders texts transitively.
pub proof fn lemma_text_order_transitive(a: Seq<char>, b: Seq<char>, c: Seq<char>)
    requires
        text_order(a, b) <= 0,
        text_order(b, c) <= 0,
    ensures
        text_order(a, c) <= 0,
    decreases a.len(),
{
    if a.len() > 0 && b.len() > 0 && c.len() > 0 {
        if a[0] == b[0] && b[0] == c[0] {
            lemma_text_order_transitive(a.skip(1), b.skip(1), c.skip(1));
        }
    }
}

/// Compares two texts as `text_order` does, giving -1, 0 or 1.
pub fn compare_chars(a: &Vec<char>, b: &Vec<char>) -> (r: i8)
    ensures
        r as int == text_order(a@, b@),
{
    let mut i: usize = 0;
    assert(a@.skip(0) =~= a@);
    assert(b@.skip(0) =~= b@);
    loop
        invariant
            i <= a.len(),
            i <= b.len(),
            text_order(a@, b@) == text_order(a@.skip(i as int), b@.skip(i as int)),
        decreases a.len() - i,
    {
        if i >= a.len() {
            if i >= b.len() {
                return 0;
            } else {
                return -1;
            }
        }
        if i >= b.len() {
            return 1;
        }
        if a[i] < b[i] {
            return -1;
        }
        if a[i] > b[i] {
            return 1;
        }
        assert(a@.skip(i as int).skip(1) =~= a@.skip(i + 1));
        assert(b@.skip(i as int).skip(1) =~= b@.skip(i + 1));
        i += 1;
    }
}

/// Compares two strings as `text_order` does, giving -1, 0 or 1.
pub fn compare_text(a: &str, b: &str) -> (r: i8)
    ensures
        r as int == text_order(a@, b@),
{
    let x = chars_of(a);
    let y = chars_of(b);
    compare_chars(&x, &y)
}

/// Whether `needle` stands in `hay` at index `i`.
pub open spec fn occurs_at(hay: Seq<char>, needle: Seq<char>, i: int) -> bool {
    0 <= i && i + needle.len() <= hay.len() && hay.subrange(i, i + needle.len()) == needle
}

/// Whether `needle` stands somewhere in `hay`.
pub open spec fn contains_text(hay: Seq<char>, needle: Seq<char>) -> bool {
    exists|i: int| occurs_at(hay, needle, i)
}

/// Whether `needle` stands somewhere in `hay`.
pub fn find_text(hay: &Vec<char>, needle: &Vec<char>) -> (r: bool)
    ensures
        r == contains_text(hay@, needle@),
{
    if needle.len() > hay.len() {
        assert(forall|i: int| !occurs_at(hay@, needle@, i));
        return false;
    }
    let last: usize = hay.len() - needle.len();
    let mut i: usize = 0;
    loop
        invariant
            last == hay.len() - needle.len(),
            i <= last,
            forall|j: int| 0 <= j < i ==> !occurs_at(hay@, needle@, j),
        decreases last - i,
    {
        if range_equals(hay, i, i + needle.len(), needle) {
            assert(occurs_at(hay@, needle@, i as int));
            return true;
        }
        if i == last {
            assert(forall|j: int| !occurs_at(hay@, needle@, j));
            return false;
        }
        i += 1;
    }
}

} // verus!
