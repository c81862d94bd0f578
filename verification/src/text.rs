//! Text helpers: case folding, decimal numerals and substring search.
use vstd::prelude::*;

verus! {

/// A character of the ASCII range.
pub open spec fn is_ascii_char(c: char) -> bool {
    (c as u32) < 128
}

/// Every character of `text` is ASCII.
pub open spec fn all_ascii(text: Seq<char>) -> bool {
    forall|i: int| 0 <= i < text.len() ==> is_ascii_char(#[trigger] text[i])
}

/// The ASCII lower-case form of a character: `A`–`Z` become `a`–`z`,
/// every other character stays.
pub open spec fn ascii_lower_char(c: char) -> char {
    if 65 <= (c as u32) <= 90 {
        ((c as u32) + 32) as char
    } else {
        c
    }
}

/// What `str::to_lowercase` gives for a text that is not all ASCII (the
/// Unicode lower-case mapping).
pub uninterp spec fn unicode_lowercase(text: Seq<char>) -> Seq<char>;

/// What `str::to_lowercase` gives: on an all-ASCII text, each character's
/// ASCII lower-case form (as std documents); otherwise the Unicode mapping.
pub open spec fn lowercase(text: Seq<char>) -> Seq<char> {
    if all_ascii(text) {
        text.map_values(|c: char| ascii_lower_char(c))
    } else {
        unicode_lowercase(text)
    }
}

/// `str::to_lowercase`: the lower-case form of `text`. On an all-ASCII
/// text this is the ASCII lower-casing; otherwise only the name of the
/// Unicode mapping is stated.
#[verifier::external_body]
pub fn to_lowercase(text: &str) -> (lower: String)
    ensures
        lower@ == lowercase(text@),
        !all_ascii(text@) ==> lower@ == unicode_lowercase(text@),
{
    text.to_lowercase()
}

/// The character of a decimal digit `d < 10`.
pub open spec fn digit_char(d: nat) -> char {
    ((d + 48) as u8) as char
}

/// The decimal numeral of `n`, without sign or leading zeros.
pub open spec fn decimal(n: nat) -> Seq<char>
    decreases n,
{
    if n < 10 {
        seq![digit_char(n)]
    } else {
        decimal(n / 10).push(digit_char(n % 10))
    }
}

/// The one-character text of a decimal digit.
fn digit_text(d: u128) -> (text: &'static str)
    requires
        d < 10,
    ensures
        text@ == seq![digit_char(d as nat)],
{
    proof {
        reveal_strlit("0");
        reveal_strlit("1");
        reveal_strlit("2");
        reveal_strlit("3");
        reveal_strlit("4");
        reveal_strlit("5");
        reveal_strlit("6");
        reveal_strlit("7");
        reveal_strlit("8");
        reveal_strlit("9");
    }
    if d == 0 {
        "0"
    } else if d == 1 {
        "1"
    } else if d == 2 {
        "2"
    } else if d == 3 {
        "3"
    } else if d == 4 {
        "4"
    } else if d == 5 {
        "5"
    } else if d == 6 {
        "6"
    } else if d == 7 {
        "7"
    } else if d == 8 {
        "8"
    } else {
        "9"
    }
}

/// The decimal numeral of `n` (see `decimal`).
pub fn u128_to_decimal(n: u128) -> (text: String)
    ensures
        text@ == decimal(n as nat),
    decreases n,
{
    if n < 10 {
        String::from_str(digit_text(n))
    } else {
        let mut text = u128_to_decimal(n / 10);
        text.append(digit_text(n % 10));
        text
    }
}

/// `text` occurs in `s` at position `i`.
pub open spec fn occurs_at(s: Seq<char>, text: Seq<char>, i: int) -> bool {
    0 <= i && i + text.len() <= s.len() && s.subrange(i, i + text.len()) == text
}

/// `text` occurs somewhere in `s`.
pub open spec fn contains_text(s: Seq<char>, text: Seq<char>) -> bool {
    exists|i: int| #[trigger] occurs_at(s, text, i)
}

/// Whether `text` occurs in `s`.
pub fn contains_str(s: &str, text: &str) -> (found: bool)
    ensures
        found == contains_text(s@, text@),
{
    let n = s.unicode_len();
    let m = text.unicode_len();
    if m > n {
        proof {
            assert forall|i: int| !#[trigger] occurs_at(s@, text@, i) by {}
        }
        return false;
    }
    if m == 0 {
        proof {
            assert(s@.subrange(0, 0) =~= text@);
            assert(occurs_at(s@, text@, 0));
        }
        return true;
    }
    let mut i: usize = 0;
    while i <= n - m
        invariant
            n == s@.len(),
            m == text@.len(),
            0 < m <= n,
            i <= n - m + 1,
            forall|k: int| 0 <= k < i ==> !#[trigger] occurs_at(s@, text@, k),
        decreases n - m + 1 - i,
    {
        let mut j: usize = 0;
        let mut same = true;
        while j < m
            invariant
                n == s@.len(),
                m == text@.len(),
                i + m <= n,
                j <= m,
                same ==> forall|q: int| 0 <= q < j ==> s@[i + q] == text@[q],
                !same ==> !occurs_at(s@, text@, i as int),
            decreases m - j,
        {
            if same && s.get_char(i + j) != text.get_char(j) {
                same = false;
                proof {
                    if occurs_at(s@, text@, i as int) {
                        assert(s@.subrange(i as int, i + m)[j as int] == s@[i + j]);
                    }
                }
            }
            j = j + 1;
        }
        if same {
            proof {
                assert(s@.subrange(i as int, i + m) =~= text@);
                assert(occurs_at(s@, text@, i as int));
            }
            return true;
        }
        i = i + 1;
    }
    proof {
        assert forall|k: int| !#[trigger] occurs_at(s@, text@, k) by {
            if 0 <= k < i {
            }
        }
    }
    false
}


/// `10^n`.
pub open spec fn ten_pow(n: nat) -> nat
    decreases n,
{
    if n == 0 {
        1
    } else {
        10 * ten_pow((n - 1) as nat)
    }
}

pub proof fn lemma_ten_pow_mono(a: nat, b: nat)
    requires
        a <= b,
    ensures
        ten_pow(a) <= ten_pow(b),
    decreases b,
{
    if a < b {
        lemma_ten_pow_mono(a, (b - 1) as nat);
    }
}

/// `10u128.pow(n)`.
pub fn pow10(n: u32) -> (p: u128)
    requires
        ten_pow(n as nat) <= u128::MAX,
    ensures
        p == ten_pow(n as nat),
{
    let mut p: u128 = 1;
    let mut i: u32 = 0;
    while i < n
        invariant
            i <= n,
            p == ten_pow(i as nat),
            ten_pow(n as nat) <= u128::MAX,
        decreases n - i,
    {
        proof {
            lemma_ten_pow_mono((i + 1) as nat, n as nat);
        }
        p = p * 10;
        i = i + 1;
    }
    p
}

/// A text made of three parts.
pub fn join3(a: &str, b: &str, c: &str) -> (text: String)
    ensures
        text@ == a@ + b@ + c@,
{
    String::from_str(a).concat(b).concat(c)
}


/// `10^n` when it fits in a `u128`.
pub fn checked_pow10(n: u32) -> (p: Option<u128>)
    ensures
        match p {
            Some(v) => ten_pow(n as nat) <= u128::MAX && v == ten_pow(n as nat),
            None => ten_pow(n as nat) > u128::MAX,
        },
{
    let mut p: u128 = 1;
    let mut i: u32 = 0;
    while i < n
        invariant
            i <= n,
            p == ten_pow(i as nat),
        decreases n - i,
    {
        match p.checked_mul(10) {
            Some(q) => {
                p = q;
            },
            None => {
                proof {
                    lemma_ten_pow_mono((i + 1) as nat, n as nat);
                }
                return None;
            },
        }
        i = i + 1;
    }
    Some(p)
}

/// A decimal digit character.
pub open spec fn is_digit(c: char) -> bool {
    '0' <= c <= '9'
}

/// The value of a string of decimal digits.
pub open spec fn digits_value(s: Seq<char>) -> nat
    decreases s.len(),
{
    if s.len() == 0 {
        0
    } else {
        digits_value(s.drop_last()) * 10 + ((s.last() as nat) - 48) as nat
    }
}

/// Every character of `s` is a decimal digit.
pub open spec fn all_digits(s: Seq<char>) -> bool {
    forall|i: int| 0 <= i < s.len() ==> is_digit(#[trigger] s[i])
}

/// The digits part of a numeral: the text without a leading `+`.
pub open spec fn numeral_digits(text: Seq<char>) -> Seq<char> {
    if text.len() > 0 && text[0] == '+' {
        text.subrange(1, text.len() as int)
    } else {
        text
    }
}

/// What `u128::from_str` reads: an optional `+`, then one or more decimal
/// digits whose value fits in 128 bits.
pub open spec fn u128_numeral(text: Seq<char>) -> Option<u128> {
    let d = numeral_digits(text);
    if d.len() > 0 && all_digits(d) && digits_value(d) <= u128::MAX {
        Some(digits_value(d) as u128)
    } else {
        None
    }
}

/// A string of digits is worth at least any of its prefixes.
proof fn lemma_digits_value_prefix(s: Seq<char>, k: int)
    requires
        0 <= k <= s.len(),
        forall|i: int| 0 <= i < s.len() ==> is_digit(#[trigger] s[i]),
    ensures
        digits_value(s) >= digits_value(s.subrange(0, k)),
    decreases s.len(),
{
    if k < s.len() {
        assert(s.drop_last().subrange(0, k) =~= s.subrange(0, k));
        lemma_digits_value_prefix(s.drop_last(), k);
    } else {
        assert(s.subrange(0, k) =~= s);
    }
}

/// Parses an unsigned 128-bit decimal numeral as `u128::from_str` does.
pub fn parse_u128(text: &str) -> (value: Option<u128>)
    ensures
        value == u128_numeral(text@),
{
    let n = text.unicode_len();
    let start: usize = if n > 0 && text.get_char(0) == '+' {
        1
    } else {
        0
    };
    let ghost d = numeral_digits(text@);
    if start >= n {
        return None;
    }
    let mut acc: u128 = 0;
    let mut i: usize = start;
    while i < n
        invariant
            start <= i <= n,
            n == text@.len(),
            d == text@.subrange(start as int, n as int),
            d == numeral_digits(text@),
            forall|j: int| 0 <= j < i - start ==> is_digit(#[trigger] d[j]),
            acc == digits_value(d.subrange(0, i - start)),
        decreases n - i,
    {
        let c = text.get_char(i);
        if !('0' <= c && c <= '9') {
            proof {
                assert(d[i - start] == text@[i as int]);
                assert(!is_digit(d[i - start]));
                assert(!all_digits(d));
            }
            return None;
        }
        let digit = (c as u32 - 48) as u128;
        proof {
            assert(d[i - start] == text@[i as int]);
            assert(d.subrange(0, i + 1 - start).drop_last() =~= d.subrange(0, i - start));
            assert(d.subrange(0, i + 1 - start).last() == c);
            assert(digits_value(d.subrange(0, i + 1 - start)) == acc * 10 + digit);
        }
        match acc.checked_mul(10) {
            None => {
                proof {
                    lemma_overflow_stays(d, (i + 1 - start) as int);
                }
                return None;
            },
            Some(t) => match t.checked_add(digit) {
                None => {
                    proof {
                        lemma_overflow_stays(d, (i + 1 - start) as int);
                    }
                    return None;
                },
                Some(v) => {
                    acc = v;
                },
            },
        }
        i = i + 1;
    }
    proof {
        assert(d.subrange(0, n - start) =~= d);
    }
    Some(acc)
}

/// Once a digit prefix is worth more than `u128::MAX`, so is any longer
/// all-digit string, and the numeral does not parse either way.
proof fn lemma_overflow_stays(d: Seq<char>, k: int)
    requires
        0 < k <= d.len(),
        forall|j: int| 0 <= j < k - 1 ==> is_digit(#[trigger] d[j]),
        is_digit(d[k - 1]),
        digits_value(d.subrange(0, k)) > u128::MAX,
    ensures
        !(d.len() > 0 && all_digits(d) && digits_value(d) <= u128::MAX),
{
    if all_digits(d) {
        lemma_digits_value_prefix(d, k);
    }
}

} // verus!
