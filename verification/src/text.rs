//! Character-level helpers: decimal digits, clock and price texts, and
//! searching within strings.

use vstd::prelude::*;
use vstd::utf8::encode_utf8;

verus! {

/// The decimal digit character for a value below ten.
pub open spec fn digit_char(d: int) -> char {
    (48 + d) as char
}

/// The decimal representation of a natural number, without leading zeros.
pub open spec fn decimal_text(n: nat) -> Seq<char>
    decreases n,
{
    if n < 10 {
        seq![digit_char(n as int)]
    } else {
        decimal_text(n / 10).push(digit_char((n % 10) as int))
    }
}

/// A number below one hundred written with exactly two digits (`{:02}`).
pub open spec fn two_digits(n: int) -> Seq<char> {
    seq![digit_char(n / 10), digit_char(n % 10)]
}

/// `HH:MM` for an hour and a minute below one hundred.
pub open spec fn clock_text(hour: int, minute: int) -> Seq<char> {
    two_digits(hour) + seq![':'] + two_digits(minute)
}

/// A price given in cents, written with two decimals (`{:.2}` of the amount).
pub open spec fn price_text(cents: int) -> Seq<char> {
    let magnitude = if cents < 0 { -cents } else { cents };
    let sign = if cents < 0 { seq!['-'] } else { Seq::<char>::empty() };
    sign + decimal_text((magnitude / 100) as nat) + seq!['.'] + two_digits(magnitude % 100)
}

/// Whether `needle` occurs in `hay` as a contiguous run of characters.
pub open spec fn has_substring(hay: Seq<char>, needle: Seq<char>) -> bool {
    exists|i: int|
        0 <= i && i + needle.len() <= hay.len() && #[trigger] hay.subrange(i, i + needle.len())
            == needle
}

/// Whether every character of `s` is in the ASCII range.
pub open spec fn all_ascii(s: Seq<char>) -> bool {
    forall|i: int| 0 <= i < s.len() ==> (s[i] as u32) < 128
}

proof fn lemma_decimal_text_not_empty(n: nat)
    ensures
        decimal_text(n).len() >= 1,
    decreases n,
{
    if n >= 10 {
        lemma_decimal_text_not_empty(n / 10);
    }
}

/// A price is written with a decimal point followed by exactly two digits.
pub proof fn law_price_two_decimals(cents: int)
    ensures
        price_text(cents).len() >= 4,
        price_text(cents)[price_text(cents).len() - 3] == '.',
{
    let magnitude = if cents < 0 { -cents } else { cents };
    lemma_decimal_text_not_empty((magnitude / 100) as nat);
}

/// Appends one character to a string.
#[verifier::external_body]
pub(crate) fn push_char(s: &mut String, c: char)
    ensures
        final(s)@ == old(s)@.push(c),
{
    s.push(c)
}

fn digit(d: u64) -> (c: char)
    requires
        d < 10,
    ensures
        c == digit_char(d as int),
{
    let b: u8 = 48u8 + (d as u8);
    b as char
}

/// Writes a natural number in decimal.
pub fn decimal_string(n: u64) -> (s: String)
    ensures
        s@ == decimal_text(n as nat),
    decreases n,
{
    if n < 10 {
        let mut s = String::new();
        push_char(&mut s, digit(n));
        s
    } else {
        let mut s = decimal_string(n / 10);
        push_char(&mut s, digit(n % 10));
        s
    }
}

/// Writes an hour and a minute as `HH:MM`, each with two digits.
pub fn format_clock(hour: u32, minute: u32) -> (s: String)
    requires
        hour < 100,
        minute < 100,
    ensures
        s@ == clock_text(hour as int, minute as int),
{
    let mut s = String::new();
    push_char(&mut s, digit((hour / 10) as u64));
    push_char(&mut s, digit((hour % 10) as u64));
    push_char(&mut s, ':');
    push_char(&mut s, digit((minute / 10) as u64));
    push_char(&mut s, digit((minute % 10) as u64));
    assert(s@ =~= clock_text(hour as int, minute as int));
    s
}

/// Writes an amount of cents as a decimal number with two places.
pub fn format_price(cents: i64) -> (s: String)
    ensures
        s@ == price_text(cents as int),
{
    let magnitude: u64 = if cents < 0 {
        (0i128 - (cents as i128)) as u64
    } else {
        cents as u64
    };
    let mut s = String::new();
    if cents < 0 {
        push_char(&mut s, '-');
    }
    let whole = decimal_string(magnitude / 100);
    s.append(whole.as_str());
    push_char(&mut s, '.');
    let rest = magnitude % 100;
    push_char(&mut s, digit(rest / 10));
    push_char(&mut s, digit(rest % 10));
    assert(s@ =~= price_text(cents as int));
    s
}


/// Number of bytes of a string in UTF-8 (what `str::len` counts).
pub open spec fn byte_len(s: Seq<char>) -> int {
    encode_utf8(s).len() as int
}

/// Counts the bytes of the UTF-8 encoding of a string slice.
pub fn utf8_len(s: &str) -> (n: u128)
    ensures
        n == byte_len(s@),
        n <= 4 * (usize::MAX as int),
{
    let cs = chars_of(s);
    let total = cs.len();
    let mut i: usize = total;
    let mut n: u128 = 0;
    assert(s@.skip(i as int) =~= Seq::<char>::empty());
    while i > 0
        invariant
            cs@ == s@,
            total == cs@.len(),
            i <= cs@.len(),
            n == encode_utf8(s@.skip(i as int)).len(),
            n <= 4 * (cs@.len() - i),
        decreases i,
    {
        let c = cs[i - 1];
        let v = c as u32;
        let w: u128 = if v <= 0x7F {
            1
        } else if v <= 0x7FF {
            2
        } else if v <= 0xFFFF {
            3
        } else {
            4
        };
        proof {
            vstd::utf8::char_is_scalar(c);
            let t = s@.skip(i - 1);
            assert(t.drop_first() =~= s@.skip(i as int));
            assert(t[0] == c);
        }
        assert(n + w <= 4 * (cs@.len() - i) + 4);
        n = n + w;
        i = i - 1;
    }
    assert(s@.skip(0) =~= s@);
    n
}

/// The characters of a string slice, in order.
pub fn chars_of(s: &str) -> (v: Vec<char>)
    ensures
        v@ == s@,
{
    let n = s.unicode_len();
    let mut v: Vec<char> = Vec::new();
    for i in 0..n
        invariant
            n == s@.len(),
            v@ == s@.subrange(0, i as int),
    {
        v.push(s.get_char(i));
        assert(v@ =~= s@.subrange(0, i + 1));
    }
    assert(v@ =~= s@);
    v
}

/// Whether `needle` occurs in `hay` (what `str::contains` with a string pattern
/// decides).
pub fn contains_text(hay: &str, needle: &str) -> (found: bool)
    ensures
        found == has_substring(hay@, needle@),
{
    let h = chars_of(hay);
    let nd = chars_of(needle);
    let hn = h.len();
    let nn = nd.len();
    if nn > hn {
        return false;
    }
    let last = hn - nn;
    let mut i: usize = 0;
    while i <= last
        invariant
            h@ == hay@,
            nd@ == needle@,
            hn == h@.len(),
            nn == nd@.len(),
            nn <= hn,
            last == hn - nn,
            forall|k: int| 0 <= k < i ==> #[trigger] hay@.subrange(k, k + nn) != needle@,
        decreases last + 1 - i,
    {
        let mut j: usize = 0;
        let mut same = true;
        while j < nn
            invariant
                h@ == hay@,
                nd@ == needle@,
                hn == h@.len(),
                nn == nd@.len(),
                i <= last,
                last == hn - nn,
                0 <= j <= nn,
                same == (forall|k: int| 0 <= k < j ==> h@[i + k] == nd@[k]),
            decreases nn - j,
        {
            if h[i + j] != nd[j] {
                same = false;
            }
            j = j + 1;
        }
        if same {
            assert(hay@.subrange(i as int, i + nn) =~= needle@);
            return true;
        }
        proof {
            let k = choose|k: int| 0 <= k < nn && h@[i + k] != nd@[k];
            assert(hay@.subrange(i as int, i + nn)[k] != needle@[k]);
        }
        i = i + 1;
    }
    assert forall|k: int| 0 <= k && k + needle@.len() <= hay@.len() implies #[trigger] hay@.subrange(
        k,
        k + needle@.len(),
    ) != needle@ by {
        assert(k < i);
    }
    false
}

} // verus!
