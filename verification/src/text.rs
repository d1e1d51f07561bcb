//! The text form of attribute values.
//!
//! Every attribute crosses the boundary to the hardware as text. This module
//! says, as functions on sequences of characters, what text stands for an
//! integer or a boolean, and holds the executable formatters and parsers
//! that are proved against those functions.

use vstd::prelude::*;
use vstd::utf8::encode_utf8;

verus! {

/// `String::push` appends one character to the string.
pub assume_specification[ String::push ](s: &mut String, ch: char)
    ensures
        final(s)@ == old(s)@.push(ch),
;

// ----- decimal digits -----

/// The character for one decimal digit.
pub open spec fn digit_char(d: nat) -> char
    recommends
        d < 10,
{
    ((48 + d) as u8) as char
}

/// Whether the character is one of `0` to `9`.
pub open spec fn is_digit(c: char) -> bool {
    48 <= c as u32 <= 57
}

/// The value of a decimal digit character.
pub open spec fn digit_value(c: char) -> nat
    recommends
        is_digit(c),
{
    (c as u32 - 48) as nat
}

/// Whether every character of the text is a decimal digit.
pub open spec fn all_digits(s: Seq<char>) -> bool {
    forall|i: int| 0 <= i < s.len() ==> is_digit(#[trigger] s[i])
}

/// The number that a run of decimal digits denotes; zero for the empty run.
pub open spec fn digits_value(s: Seq<char>) -> nat
    decreases s.len(),
{
    if s.len() == 0 {
        0
    } else {
        digits_value(s.drop_last()) * 10 + digit_value(s.last())
    }
}

/// The decimal text of a natural number, without leading zeros.
pub open spec fn nat_text(n: nat) -> Seq<char>
    decreases n,
{
    if n < 10 {
        seq![digit_char(n)]
    } else {
        nat_text(n / 10).push(digit_char(n % 10))
    }
}

/// The decimal text of an integer: a minus sign before the digits of a
/// negative number, the bare digits otherwise.
pub open spec fn int_text(i: int) -> Seq<char> {
    if i < 0 {
        seq!['-'] + nat_text((-i) as nat)
    } else {
        nat_text(i as nat)
    }
}

/// The integer that a text denotes, if it denotes one: an optional sign
/// followed by at least one decimal digit and nothing else. A plus sign is
/// always accepted, a minus sign only where `signed` is set.
pub open spec fn text_int(s: Seq<char>, signed: bool) -> Option<int> {
    if s.len() == 0 {
        None
    } else if s[0] == '+' {
        let digits = s.subrange(1, s.len() as int);
        if digits.len() > 0 && all_digits(digits) {
            Some(digits_value(digits) as int)
        } else {
            None
        }
    } else if s[0] == '-' && signed {
        let digits = s.subrange(1, s.len() as int);
        if digits.len() > 0 && all_digits(digits) {
            Some(-(digits_value(digits) as int))
        } else {
            None
        }
    } else if all_digits(s) {
        Some(digits_value(s) as int)
    } else {
        None
    }
}

/// The integer that a text denotes, if it denotes one that lies between
/// `min` and `max`.
pub open spec fn text_int_within(s: Seq<char>, signed: bool, min: int, max: int) -> Option<int> {
    match text_int(s, signed) {
        Some(v) => if min <= v <= max {
            Some(v)
        } else {
            None
        },
        None => None,
    }
}

// ----- white space and booleans -----

/// Whether the character is Unicode white space.
pub open spec fn is_space(c: char) -> bool {
    let u = c as u32;
    (9 <= u <= 13) || u == 0x20 || u == 0x85 || u == 0xA0 || u == 0x1680 || (0x2000 <= u
        <= 0x200A) || u == 0x2028 || u == 0x2029 || u == 0x202F || u == 0x205F || u == 0x3000
}

/// The text without its leading white space.
pub open spec fn trim_start(s: Seq<char>) -> Seq<char>
    decreases s.len(),
{
    if s.len() > 0 && is_space(s[0]) {
        trim_start(s.drop_first())
    } else {
        s
    }
}

/// The text without its trailing white space.
pub open spec fn trim_end(s: Seq<char>) -> Seq<char>
    decreases s.len(),
{
    if s.len() > 0 && is_space(s.last()) {
        trim_end(s.drop_last())
    } else {
        s
    }
}

/// The text without leading and trailing white space.
pub open spec fn trim(s: Seq<char>) -> Seq<char> {
    trim_end(trim_start(s))
}

/// The text of a boolean: `1` for true and `0` for false.
pub open spec fn bool_text(b: bool) -> Seq<char> {
    if b {
        seq!['1']
    } else {
        seq!['0']
    }
}

/// The boolean that a text denotes: false where the text, white space at
/// both ends apart, is the single character `0`, and true otherwise.
pub open spec fn text_bool(s: Seq<char>) -> bool {
    trim(s) != seq!['0']
}

// ----- NUL characters -----

/// Whether the bytes hold a NUL.
pub open spec fn bytes_have_nul(b: Seq<u8>) -> bool {
    exists|i: int| 0 <= i < b.len() && b[i] == 0
}

/// Whether `pos` is the place of the first NUL among the bytes.
pub open spec fn is_first_zero(b: Seq<u8>, pos: int) -> bool {
    &&& 0 <= pos < b.len()
    &&& b[pos] == 0
    &&& forall|i: int| 0 <= i < pos ==> b[i] != 0
}

/// Whether the text holds a NUL: one of the bytes of its UTF-8 form is
/// zero.
pub open spec fn has_nul(s: Seq<char>) -> bool {
    bytes_have_nul(encode_utf8(s))
}

/// Whether `pos` is the place of the first NUL of the text, counted in the
/// bytes of its UTF-8 form.
pub open spec fn is_first_nul(s: Seq<char>, pos: int) -> bool {
    is_first_zero(encode_utf8(s), pos)
}

// ----- lemmas -----

/// A digit character is a digit, and has the value it was made from.
pub proof fn lemma_digit_char(d: nat)
    requires
        d < 10,
    ensures
        is_digit(digit_char(d)),
        digit_value(digit_char(d)) == d,
        !is_space(digit_char(d)),
        digit_char(d) != '+',
        digit_char(d) != '-',
{
}

/// Appending a digit to a run of digits multiplies its value by ten and
/// adds the digit.
pub proof fn lemma_digits_push(s: Seq<char>, c: char)
    ensures
        digits_value(s.push(c)) == digits_value(s) * 10 + digit_value(c),
        all_digits(s) && is_digit(c) ==> all_digits(s.push(c)),
{
    assert(s.push(c).drop_last() =~= s);
    assert(s.push(c).last() == c);
}

/// The value of a run of digits is at least the value of each of its
/// prefixes.
pub proof fn lemma_digits_prefix(s: Seq<char>, k: int)
    requires
        0 <= k <= s.len(),
    ensures
        digits_value(s.subrange(0, k)) <= digits_value(s),
    decreases s.len() - k,
{
    if k == s.len() {
        assert(s.subrange(0, k) =~= s);
    } else {
        lemma_digits_prefix(s.drop_last(), k);
        assert(s.drop_last().subrange(0, k) =~= s.subrange(0, k));
    }
}

/// The decimal text of a natural number is a non-empty run of digits that
/// denotes the number.
pub proof fn lemma_nat_text(n: nat)
    ensures
        nat_text(n).len() > 0,
        all_digits(nat_text(n)),
        digits_value(nat_text(n)) == n,
        nat_text(n)[0] != '+',
        nat_text(n)[0] != '-',
    decreases n,
{
    if n < 10 {
        lemma_digit_char(n);
        lemma_digits_push(Seq::<char>::empty(), digit_char(n));
        assert(Seq::<char>::empty().push(digit_char(n)) =~= seq![digit_char(n)]);
    } else {
        lemma_nat_text(n / 10);
        lemma_digit_char(n % 10);
        lemma_digits_push(nat_text(n / 10), digit_char(n % 10));
    }
}

/// Reading back the decimal text of an integer gives the integer, where a
/// minus sign is accepted or the integer is not negative.
pub proof fn lemma_int_text_round_trip(i: int, signed: bool)
    requires
        signed || i >= 0,
    ensures
        text_int(int_text(i), signed) == Some(i),
{
    if i < 0 {
        let digits = nat_text((-i) as nat);
        lemma_nat_text((-i) as nat);
        let s = int_text(i);
        assert(s[0] == '-');
        assert(s.subrange(1, s.len() as int) =~= digits);
    } else {
        lemma_nat_text(i as nat);
    }
}

/// Reading back the text of a boolean gives the boolean.
pub proof fn lemma_bool_text_round_trip(b: bool)
    ensures
        text_bool(bool_text(b)) == b,
{
    let s = bool_text(b);
    assert(!is_space(s[0]));
    assert(trim_start(s) == s);
    assert(trim_end(s) == s);
    if b {
        assert(s[0] != seq!['0'][0]);
    }
}

/// Leading white space does not change what is left after trimming it.
proof fn lemma_trim_start_step(s: Seq<char>, i: int)
    requires
        0 <= i < s.len(),
        is_space(s[i]),
    ensures
        trim_start(s.subrange(i, s.len() as int)) == trim_start(s.subrange(i + 1, s.len() as int)),
{
    let t = s.subrange(i, s.len() as int);
    assert(t[0] == s[i]);
    assert(t.drop_first() =~= s.subrange(i + 1, s.len() as int));
}

/// Trailing white space does not change what is left after trimming it.
proof fn lemma_trim_end_step(s: Seq<char>, i: int, j: int)
    requires
        0 <= i < j <= s.len(),
        is_space(s[j - 1]),
    ensures
        trim_end(s.subrange(i, j)) == trim_end(s.subrange(i, j - 1)),
{
    let t = s.subrange(i, j);
    assert(t.last() == s[j - 1]);
    assert(t.drop_last() =~= s.subrange(i, j - 1));
}

// ----- executable helpers -----

/// Tells whether the character is Unicode white space.
pub fn is_space_char(c: char) -> (r: bool)
    ensures
        r == is_space(c),
{
    let u: u32 = c as u32;
    (9 <= u && u <= 13) || u == 0x20 || u == 0x85 || u == 0xA0 || u == 0x1680 || (0x2000 <= u
        && u <= 0x200A) || u == 0x2028 || u == 0x2029 || u == 0x202F || u == 0x205F || u
        == 0x3000
}

/// Appends the decimal text of `n` to the string.
pub fn push_nat(s: &mut String, n: u128)
    ensures
        final(s)@ == old(s)@ + nat_text(n as nat),
    decreases n,
{
    if n >= 10 {
        push_nat(s, n / 10);
    }
    let d: u8 = (n % 10) as u8;
    let c: char = (48 + d) as char;
    s.push(c);
    proof {
        assert(c == digit_char((n % 10) as nat));
        assert(final(s)@ =~= old(s)@ + nat_text(n as nat));
    }
}

/// The decimal text of an unsigned integer.
pub fn unsigned_text(n: u128) -> (r: String)
    ensures
        r@ == int_text(n as int),
{
    let mut s = String::new();
    push_nat(&mut s, n);
    proof {
        assert(s@ =~= nat_text(n as nat));
    }
    s
}

/// The decimal text of a signed integer.
pub fn signed_text(v: i128) -> (r: String)
    ensures
        r@ == int_text(v as int),
{
    let mut s = String::new();
    if v < 0 {
        s.push('-');
        let m: u128 = ((-(v + 1)) as u128) + 1;
        push_nat(&mut s, m);
        proof {
            assert(m == -(v as int));
            assert(s@ =~= seq!['-'] + nat_text((-(v as int)) as nat));
        }
    } else {
        push_nat(&mut s, v as u128);
        proof {
            assert(s@ =~= nat_text(v as nat));
        }
    }
    s
}

/// The text of a boolean: `"1"` or `"0"`.
pub fn bool_to_text(b: bool) -> (r: String)
    ensures
        r@ == bool_text(b),
{
    let mut s = String::new();
    if b {
        s.push('1');
    } else {
        s.push('0');
    }
    proof {
        assert(s@ =~= bool_text(b));
    }
    s
}

/// Reads the run of decimal digits that makes up the text from `start` on.
/// Gives its value, or nothing where a character is no digit or the value
/// does not fit.
pub fn parse_digits(s: &str, start: usize) -> (r: Option<u128>)
    requires
        start <= s@.len(),
    ensures
        match r {
            Some(v) => all_digits(s@.subrange(start as int, s@.len() as int)) && digits_value(
                s@.subrange(start as int, s@.len() as int),
            ) == v,
            None => !all_digits(s@.subrange(start as int, s@.len() as int)) || digits_value(
                s@.subrange(start as int, s@.len() as int),
            ) > u128::MAX,
        },
{
    let n: usize = s.unicode_len();
    let ghost whole = s@.subrange(start as int, n as int);
    let mut acc: u128 = 0;
    let mut i: usize = start;
    while i < n
        invariant
            start <= i <= n,
            n == s@.len(),
            whole == s@.subrange(start as int, n as int),
            all_digits(s@.subrange(start as int, i as int)),
            digits_value(s@.subrange(start as int, i as int)) == acc,
        decreases n - i,
    {
        let c: char = s.get_char(i);
        let u: u32 = c as u32;
        proof {
            assert(whole[i - start] == c);
            assert(s@.subrange(start as int, i as int + 1) =~= s@.subrange(
                start as int,
                i as int,
            ).push(c));
            lemma_digits_push(s@.subrange(start as int, i as int), c);
            assert(whole.subrange(0, i + 1 - start) =~= s@.subrange(start as int, i as int + 1));
            lemma_digits_prefix(whole, i + 1 - start);
        }
        if u < 48 || u > 57 {
            return None;
        }
        let d: u128 = (u - 48) as u128;
        if acc > (u128::MAX - d) / 10 {
            return None;
        }
        acc = acc * 10 + d;
        i = i + 1;
    }
    proof {
        assert(s@.subrange(start as int, i as int) == whole);
    }
    Some(acc)
}

/// Reads a signed decimal integer between `min` and `max`.
pub fn parse_signed(s: &str, min: i128, max: i128) -> (r: Option<i128>)
    requires
        min <= 0 <= max,
    ensures
        r == match text_int_within(s@, true, min as int, max as int) {
            Some(v) => Some(v as i128),
            None => None,
        },
{
    let n: usize = s.unicode_len();
    if n == 0 {
        return None;
    }
    let first: char = s.get_char(0);
    if first == '+' || first == '-' {
        if n == 1 {
            return None;
        }
        match parse_digits(s, 1) {
            None => None,
            Some(m) => {
                if first == '-' {
                    let limit: u128 = if min == 0 {
                        0
                    } else {
                        ((-(min + 1)) as u128) + 1
                    };
                    if m > limit {
                        None
                    } else if m == 0 {
                        Some(0)
                    } else {
                        Some(-((m - 1) as i128) - 1)
                    }
                } else if m > max as u128 {
                    None
                } else {
                    Some(m as i128)
                }
            },
        }
    } else {
        proof {
            assert(s@.subrange(0, n as int) =~= s@);
        }
        match parse_digits(s, 0) {
            None => None,
            Some(m) => if m > max as u128 {
                None
            } else {
                Some(m as i128)
            },
        }
    }
}

/// Reads an unsigned decimal integer that is at most `max`.
pub fn parse_unsigned(s: &str, max: u128) -> (r: Option<u128>)
    ensures
        r == match text_int_within(s@, false, 0, max as int) {
            Some(v) => Some(v as u128),
            None => None,
        },
{
    let n: usize = s.unicode_len();
    if n == 0 {
        return None;
    }
    let first: char = s.get_char(0);
    if first == '+' {
        if n == 1 {
            return None;
        }
        match parse_digits(s, 1) {
            None => None,
            Some(m) => if m > max {
                None
            } else {
                Some(m)
            },
        }
    } else {
        proof {
            assert(s@.subrange(0, n as int) =~= s@);
        }
        match parse_digits(s, 0) {
            None => None,
            Some(m) => if m > max {
                None
            } else {
                Some(m)
            },
        }
    }
}

/// Reads a boolean: false where the text, white space at both ends apart,
/// is `0`, and true for every other text.
pub fn parse_bool(s: &str) -> (r: bool)
    ensures
        r == text_bool(s@),
{
    let n: usize = s.unicode_len();
    let mut i: usize = 0;
    proof {
        assert(s@.subrange(0, n as int) =~= s@);
    }
    while i < n
        invariant
            i <= n,
            n == s@.len(),
            trim_start(s@) == trim_start(s@.subrange(i as int, n as int)),
        ensures
            i <= n,
            trim_start(s@) == s@.subrange(i as int, n as int),
        decreases n - i,
    {
        let c: char = s.get_char(i);
        if !is_space_char(c) {
            proof {
                assert(s@.subrange(i as int, n as int)[0] == c);
            }
            break ;
        }
        proof {
            lemma_trim_start_step(s@, i as int);
        }
        i = i + 1;
    }
    let mut j: usize = n;
    while j > i
        invariant
            i <= j <= n,
            n == s@.len(),
            trim(s@) == trim_end(s@.subrange(i as int, j as int)),
        ensures
            i <= j <= n,
            trim(s@) == s@.subrange(i as int, j as int),
        decreases j - i,
    {
        let c: char = s.get_char(j - 1);
        if !is_space_char(c) {
            proof {
                assert(s@.subrange(i as int, j as int).last() == c);
            }
            break ;
        }
        proof {
            lemma_trim_end_step(s@, i as int, j as int);
        }
        j = j - 1;
    }
    if j - i == 1 {
        let c: char = s.get_char(i);
        proof {
            assert(s@.subrange(i as int, j as int)[0] == c);
            if c == '0' {
                assert(s@.subrange(i as int, j as int) =~= seq!['0']);
            }
        }
        c != '0'
    } else {
        proof {
            assert(seq!['0'].len() == 1);
        }
        true
    }
}

/// Finds the first NUL of the text, and gives its place among the bytes
/// of the text.
pub fn find_nul(s: &str) -> (r: Option<usize>)
    ensures
        match r {
            Some(pos) => is_first_nul(s@, pos as int),
            None => !has_nul(s@),
        },
{
    let bytes: &[u8] = s.as_bytes();
    let n: usize = bytes.len();
    let mut i: usize = 0;
    while i < n
        invariant
            i <= n,
            n == bytes@.len(),
            bytes@ == encode_utf8(s@),
            forall|k: int| 0 <= k < i ==> bytes@[k] != 0,
        decreases n - i,
    {
        if bytes[i] == 0 {
            return Some(i);
        }
        i = i + 1;
    }
    None
}

/// A text of ASCII characters none of which is NUL holds no NUL.
pub proof fn lemma_ascii_has_no_nul(s: &str)
    requires
        s.is_ascii(),
        forall|i: int| 0 <= i < s@.len() ==> s@[i] as u32 != 0,
    ensures
        !has_nul(s@),
{
    vstd::string::is_ascii_spec_bytes(s);
    let b = encode_utf8(s@);
    assert forall|i: int| 0 <= i < b.len() implies b[i] != 0 by {
        assert(b[i] == s@[i] as u8);
    }
}

} // verus!
