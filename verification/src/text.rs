//! Text in the forms that names, keys and topics are made of.
use vstd::prelude::*;

verus! {

/// `String::push` appends the character to the end of the string.
pub assume_specification[ String::push ](s: &mut String, c: char)
    ensures
        final(s)@ == old(s)@.push(c),
;

/// `==` on `str` holds exactly of two strings with the same characters.
pub assume_specification[ <str as PartialEq>::eq ](s: &str, other: &str) -> (r: bool)
    ensures
        r == (s@ == other@),
;

/// The character of one decimal digit.
pub open spec fn digit(n: nat) -> char {
    (48 + n) as char
}

/// The decimal digits of a natural number, without leading zeros.
pub open spec fn digits(n: nat) -> Seq<char>
    decreases n,
{
    if n < 10 {
        seq![digit(n)]
    } else {
        digits(n / 10).push(digit(n % 10))
    }
}

/// An integer in decimal, with a minus sign if it is negative.
pub open spec fn decimal(i: int) -> Seq<char> {
    if i < 0 {
        seq!['-'] + digits((-i) as nat)
    } else {
        digits(i as nat)
    }
}

/// Appends the digits of `n`.
fn push_digits(out: &mut String, n: u64)
    ensures
        final(out)@ == old(out)@ + digits(n as nat),
    decreases n,
{
    if n >= 10 {
        push_digits(out, n / 10);
    }
    let d: u8 = 48 + (n % 10) as u8;
    out.push(d as char);
}

/// Writes an integer in decimal.
pub fn decimal_text(i: i64) -> (text: String)
    ensures
        text@ == decimal(i as int),
{
    let mut out: String = String::new();
    if i < 0 {
        out.push('-');
        let n: u64 = (0 - i as i128) as u64;
        push_digits(&mut out, n);
    } else {
        push_digits(&mut out, i as u64);
    }
    out
}

/// Every character of a number's digits is an ASCII digit, and there is at
/// least one.
proof fn lemma_digits_range(n: nat)
    ensures
        digits(n).len() >= 1,
        n >= 10 ==> digits(n).len() >= 2,
        forall|i: int| 0 <= i < digits(n).len() ==> '0' <= #[trigger] digits(n)[i] <= '9',
    decreases n,
{
    if n >= 10 {
        lemma_digits_range(n / 10);
    }
}

proof fn lemma_digits_injective(a: nat, b: nat)
    requires
        digits(a) == digits(b),
    ensures
        a == b,
    decreases a,
{
    lemma_digits_range(a);
    lemma_digits_range(b);
    assert(digits(a).last() == digits(b).last());
    if a >= 10 && b >= 10 {
        assert(digits(a).drop_last() == digits(a / 10));
        assert(digits(b).drop_last() == digits(b / 10));
        lemma_digits_injective(a / 10, b / 10);
    }
    assert(digits(a).last() == digit(a % 10));
    assert(digits(b).last() == digit(b % 10));
    assert(digit(a % 10) as int == 48 + a % 10);
    assert(digit(b % 10) as int == 48 + b % 10);
}

/// Different integers have different decimal forms.
pub proof fn decimal_is_injective(a: int, b: int)
    requires
        decimal(a) == decimal(b),
    ensures
        a == b,
{
    lemma_digits_range(if a < 0 { (-a) as nat } else { a as nat });
    lemma_digits_range(if b < 0 { (-b) as nat } else { b as nat });
    assert(decimal(a)[0] == decimal(b)[0]);
    if a < 0 && b < 0 {
        assert(decimal(a).drop_first() == digits((-a) as nat));
        assert(decimal(b).drop_first() == digits((-b) as nat));
        lemma_digits_injective((-a) as nat, (-b) as nat);
    } else if a >= 0 && b >= 0 {
        lemma_digits_injective(a as nat, b as nat);
    } else if a < 0 {
        assert(decimal(a)[0] == '-');
        assert(decimal(b)[0] == digits(b as nat)[0]);
    } else {
        assert(decimal(b)[0] == '-');
        assert(decimal(a)[0] == digits(a as nat)[0]);
    }
}

/// Whether `s` ends in `suffix`.
pub open spec fn ends_in(s: Seq<char>, suffix: Seq<char>) -> bool {
    s.len() >= suffix.len() && s.skip(s.len() - suffix.len()) == suffix
}

/// `s` without a trailing `suffix`, or `s` itself if it does not end in it.
pub open spec fn without_suffix(s: Seq<char>, suffix: Seq<char>) -> Seq<char> {
    if ends_in(s, suffix) {
        s.take(s.len() - suffix.len())
    } else {
        s
    }
}

/// Drops a trailing `suffix`, if there is one.
pub fn strip_suffix<'a>(s: &'a str, suffix: &str) -> (r: &'a str)
    ensures
        r@ == without_suffix(s@, suffix@),
{
    let n: usize = s.unicode_len();
    let m: usize = suffix.unicode_len();
    if n >= m && *s.substring_char(n - m, n) == *suffix {
        s.substring_char(0, n - m)
    } else {
        s
    }
}

/// An upper-case ASCII letter.
pub open spec fn is_capital(c: char) -> bool {
    'A' <= c <= 'Z'
}

/// The upper-case form of an ASCII letter; any other character as it is.
pub open spec fn capital(c: char) -> char {
    if 'a' <= c <= 'z' {
        (c as int - 32) as char
    } else {
        c
    }
}

/// `s` with a space before each capital.
pub open spec fn spaced(s: Seq<char>) -> Seq<char>
    decreases s.len(),
{
    if s.len() == 0 {
        Seq::empty()
    } else if is_capital(s.last()) {
        spaced(s.drop_last()) + seq![' ', s.last()]
    } else {
        spaced(s.drop_last()).push(s.last())
    }
}

/// A camel-case name as words: its first letter as a capital, and a space
/// before each later capital.
pub open spec fn words(s: Seq<char>) -> Seq<char> {
    if s.len() == 0 {
        s
    } else {
        seq![capital(s[0])] + spaced(s.drop_first())
    }
}

/// Turns a camel-case name into words: `bodyAppeared` becomes `Body Appeared`.
pub fn camel_case_to_space_separated(camel: &str) -> (r: String)
    ensures
        r@ == words(camel@),
{
    let mut out: String = String::new();
    let mut first: bool = true;
    for c in it: camel.chars()
        invariant
            it.seq() == camel@,
            first == (it.index() == 0),
            out@ == words(camel@.take(it.index())),
    {
        let ghost seen = camel@.take(it.index());
        let ghost more = camel@.take(it.index() + 1);
        assert(more.drop_last() == seen);
        if first {
            first = false;
            assert(more.drop_first() == Seq::<char>::empty());
            if 'a' <= c && c <= 'z' {
                out.push((c as u8 - 32) as char);
            } else {
                out.push(c);
            }
        } else {
            assert(more.drop_first().drop_last() == seen.drop_first());
            if 'A' <= c && c <= 'Z' {
                out.push(' ');
            }
            out.push(c);
        }
    }
    assert(camel@.take(camel@.len() as int) == camel@);
    out
}

/// The decimal form in steps: a number below ten is its digit, another digit
/// at the end stands for ten times the number and that digit, and a negative
/// number is written as its opposite with a minus sign.
pub proof fn decimal_grows_by_digits(n: int, d: int)
    requires
        n > 0,
        0 <= d < 10,
    ensures
        decimal(d) == seq!["0123456789"@[d]],
        decimal(10 * n + d) == decimal(n).push("0123456789"@[d]),
        decimal(-n) == seq!['-'] + decimal(n),
{
    reveal_strlit("0123456789");
    assert(d == 0 || d == 1 || d == 2 || d == 3 || d == 4 || d == 5 || d == 6 || d == 7 || d == 8
        || d == 9);
    assert(digit(d as nat) == "0123456789"@[d]);
    let m = (10 * n + d) as nat;
    assert(m / 10 == n as nat);
    assert(m % 10 == d as nat);
}

/// A suffix at the end of a text is dropped, once.
pub proof fn trailing_suffix_is_dropped(s: Seq<char>, suffix: Seq<char>)
    ensures
        without_suffix(s + suffix, suffix) == s,
{
    assert((s + suffix).skip(s.len() as int) == suffix);
    assert((s + suffix).take(s.len() as int) == s);
}

/// A text that does not end in the suffix stays as it is.
pub proof fn other_texts_keep_their_end(s: Seq<char>, suffix: Seq<char>)
    requires
        forall|stem: Seq<char>| s != #[trigger] (stem + suffix),
    ensures
        without_suffix(s, suffix) == s,
{
    if ends_in(s, suffix) {
        let stem = s.take(s.len() - suffix.len());
        assert(stem + suffix == s);
    }
}

/// The first letter of a name becomes a capital; a first character that is no
/// small letter stays as it is.
pub proof fn first_letter_becomes_a_capital(c: char)
    ensures
        words(Seq::empty()) == Seq::<char>::empty(),
        words(seq![c]).len() == 1,
        'a' <= c <= 'z' ==> words(seq![c])[0] as int - 'A' as int == c as int - 'a' as int,
        !('a' <= c <= 'z') ==> words(seq![c]) == seq![c],
{
    assert(seq![c].drop_first() == Seq::<char>::empty());
}

/// After the first letter, a capital starts a new word and any other character
/// goes on with the last one.
pub proof fn later_capitals_start_a_word(s: Seq<char>, c: char)
    requires
        s.len() > 0,
    ensures
        'A' <= c <= 'Z' ==> words(s.push(c)) == words(s) + seq![' ', c],
        !('A' <= c <= 'Z') ==> words(s.push(c)) == words(s).push(c),
{
    assert(s.push(c).drop_first() == s.drop_first().push(c));
    assert(s.drop_first().push(c).drop_last() == s.drop_first());
    assert(words(s.push(c)) == seq![capital(s[0])] + spaced(s.drop_first().push(c)));
}

} // verus!
