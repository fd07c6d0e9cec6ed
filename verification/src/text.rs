//! Character-level text helpers: whitespace trimming, case-insensitive
//! keyword matching, decimal formatting and parsing, and conversions
//! between strings and character vectors.

use vstd::prelude::*;
use vstd::string::*;

verus! {

/// The characters that count as whitespace when statements are trimmed:
/// the Unicode `White_Space` set.
pub open spec fn is_space_char(c: char) -> bool {
    c == ' ' || c == '\t' || c == '\n' || c == '\r' || c == '\u{b}' || c == '\u{c}'
        || c == '\u{85}' || c == '\u{a0}' || c == '\u{1680}' || (0x2000 <= c as u32 <= 0x200a)
        || c == '\u{2028}' || c == '\u{2029}' || c == '\u{202f}' || c == '\u{205f}'
        || c == '\u{3000}'
}

/// Runtime test matching `is_space_char`.
pub fn is_space(c: char) -> (r: bool)
    ensures
        r == is_space_char(c),
{
    let u = c as u32;
    u == 0x20 || u == 0x9 || u == 0xa || u == 0xd || u == 0xb || u == 0xc || u == 0x85
        || u == 0xa0 || u == 0x1680 || (0x2000 <= u && u <= 0x200a) || u == 0x2028 || u == 0x2029
        || u == 0x202f || u == 0x205f || u == 0x3000
}

/// Index of the first non-whitespace character at or after `i`, or the
/// length of `s` if everything from `i` on is whitespace.
pub open spec fn first_non_space(s: Seq<char>, i: int) -> int
    decreases s.len() - i,
{
    if i < 0 || i >= s.len() {
        s.len() as int
    } else if is_space_char(s[i]) {
        first_non_space(s, i + 1)
    } else {
        i
    }
}

/// One past the index of the last non-whitespace character strictly before
/// `i`, or 0 if everything before `i` is whitespace.
pub open spec fn last_non_space_end(s: Seq<char>, i: int) -> int
    decreases i,
{
    if i <= 0 || i > s.len() {
        0
    } else if is_space_char(s[i - 1]) {
        last_non_space_end(s, i - 1)
    } else {
        i
    }
}

/// `s` with leading and trailing whitespace removed.
pub open spec fn trim_spec(s: Seq<char>) -> Seq<char> {
    let a = first_non_space(s, 0);
    let b = last_non_space_end(s, s.len() as int);
    if a < b {
        s.subrange(a, b)
    } else {
        Seq::empty()
    }
}

pub proof fn lemma_first_non_space(s: Seq<char>, i: int)
    requires
        0 <= i <= s.len(),
    ensures
        i <= first_non_space(s, i) <= s.len(),
        forall|j: int| i <= j < first_non_space(s, i) ==> is_space_char(s[j]),
        first_non_space(s, i) < s.len() ==> !is_space_char(s[first_non_space(s, i)]),
    decreases s.len() - i,
{
    if i < s.len() && is_space_char(s[i]) {
        lemma_first_non_space(s, i + 1);
    }
}

pub proof fn lemma_last_non_space_end(s: Seq<char>, i: int)
    requires
        0 <= i <= s.len(),
    ensures
        0 <= last_non_space_end(s, i) <= i,
        forall|j: int| last_non_space_end(s, i) <= j < i ==> is_space_char(s[j]),
        last_non_space_end(s, i) > 0 ==> !is_space_char(s[last_non_space_end(s, i) - 1]),
    decreases i,
{
    if i > 0 && is_space_char(s[i - 1]) {
        lemma_last_non_space_end(s, i - 1);
    }
}

/// A string of whitespace alone trims to nothing.
pub proof fn lemma_trim_all_space(s: Seq<char>)
    requires
        forall|i: int| 0 <= i < s.len() ==> is_space_char(s[i]),
    ensures
        trim_spec(s).len() == 0,
{
    lemma_first_non_space(s, 0);
    lemma_last_non_space_end(s, s.len() as int);
}

/// A string holding any non-whitespace character does not trim to
/// nothing.
pub proof fn lemma_trim_nonempty(s: Seq<char>)
    requires
        exists|i: int| 0 <= i < s.len() && !is_space_char(s[i]),
    ensures
        trim_spec(s).len() > 0,
{
    lemma_first_non_space(s, 0);
    lemma_last_non_space_end(s, s.len() as int);
    let i = choose|i: int| 0 <= i < s.len() && !is_space_char(s[i]);
    let a = first_non_space(s, 0);
    let b = last_non_space_end(s, s.len() as int);
    assert(a <= i);
    if b <= a {
        assert(is_space_char(s[a]));
    }
}

/// Removes leading and trailing whitespace.
pub fn trim(s: &str) -> (r: &str)
    ensures
        r@ == trim_spec(s@),
{
    let len = s.unicode_len();
    proof {
        lemma_first_non_space(s@, 0);
        lemma_last_non_space_end(s@, s@.len() as int);
    }
    let mut a: usize = 0;
    while a < len && is_space(s.get_char(a))
        invariant
            len == s@.len(),
            0 <= a <= len,
            forall|j: int| 0 <= j < a ==> is_space_char(s@[j]),
        decreases len - a,
    {
        a += 1;
    }
    assert(a == first_non_space(s@, 0)) by {
        lemma_first_non_space_unique(s@, a as int);
    }
    let mut b: usize = len;
    while b > a && is_space(s.get_char(b - 1))
        invariant
            len == s@.len(),
            a <= b <= len,
            forall|j: int| b <= j < len ==> is_space_char(s@[j]),
        decreases b,
    {
        b -= 1;
    }
    if a < b {
        assert(b == last_non_space_end(s@, s@.len() as int)) by {
            lemma_last_non_space_end_unique(s@, b as int);
        }
        s.substring_char(a, b)
    } else {
        assert(trim_spec(s@).len() == 0) by {
            if first_non_space(s@, 0) < last_non_space_end(s@, s@.len() as int) {
                assert(!is_space_char(s@[a as int]));
            }
        }
        assert(""@ =~= trim_spec(s@)) by {
            reveal_strlit("");
        }
        ""
    }
}

proof fn lemma_first_non_space_unique(s: Seq<char>, a: int)
    requires
        0 <= a <= s.len(),
        forall|j: int| 0 <= j < a ==> is_space_char(s[j]),
        a < s.len() ==> !is_space_char(s[a]),
    ensures
        first_non_space(s, 0) == a,
{
    lemma_first_non_space_unique_from(s, 0, a);
}

proof fn lemma_first_non_space_unique_from(s: Seq<char>, i: int, a: int)
    requires
        0 <= i <= a <= s.len(),
        forall|j: int| i <= j < a ==> is_space_char(s[j]),
        a < s.len() ==> !is_space_char(s[a]),
    ensures
        first_non_space(s, i) == a,
    decreases a - i,
{
    if i < a {
        lemma_first_non_space_unique_from(s, i + 1, a);
    }
}

proof fn lemma_last_non_space_end_unique(s: Seq<char>, b: int)
    requires
        0 <= b <= s.len(),
        forall|j: int| b <= j < s.len() ==> is_space_char(s[j]),
        b > 0 ==> !is_space_char(s[b - 1]),
    ensures
        last_non_space_end(s, s.len() as int) == b,
{
    lemma_last_non_space_end_unique_from(s, s.len() as int, b);
}

proof fn lemma_last_non_space_end_unique_from(s: Seq<char>, i: int, b: int)
    requires
        0 <= b <= i <= s.len(),
        forall|j: int| b <= j < i ==> is_space_char(s[j]),
        b > 0 ==> !is_space_char(s[b - 1]),
    ensures
        last_non_space_end(s, i) == b,
    decreases i - b,
{
    if b < i {
        lemma_last_non_space_end_unique_from(s, i - 1, b);
    }
}

/// Character-by-character equality of two string slices.
pub fn str_eq(a: &str, b: &str) -> (r: bool)
    ensures
        r == (a@ == b@),
{
    let alen = a.unicode_len();
    let blen = b.unicode_len();
    if alen != blen {
        assert(a@ != b@) by {
            assert(a@.len() != b@.len());
        }
        return false;
    }
    let mut i: usize = 0;
    while i < alen
        invariant
            alen == a@.len(),
            alen == b@.len(),
            i <= alen,
            forall|j: int| 0 <= j < i ==> a@[j] == b@[j],
        decreases alen - i,
    {
        if a.get_char(i) != b.get_char(i) {
            return false;
        }
        i += 1;
    }
    proof {
        assert(a@ =~= b@);
    }
    true
}

/// `c` equals the lowercase ASCII letter `k` up to ASCII case.
pub open spec fn matches_ci(c: char, k: char) -> bool {
    c == k || (97 <= k as u32 <= 122 && c as u32 == k as u32 - 32)
}

/// `s` begins with the lowercase keyword `kw`, compared ASCII
/// case-insensitively.
pub open spec fn spec_starts_with_ci(s: Seq<char>, kw: Seq<char>) -> bool {
    s.len() >= kw.len() && forall|i: int| 0 <= i < kw.len() ==> matches_ci(s[i], kw[i])
}

/// Case-insensitive prefix test against a lowercase ASCII keyword.
pub fn starts_with_ci(s: &str, kw: &str) -> (r: bool)
    ensures
        r == spec_starts_with_ci(s@, kw@),
{
    let n = kw.unicode_len();
    if s.unicode_len() < n {
        return false;
    }
    let mut i: usize = 0;
    while i < n
        invariant
            n == kw@.len(),
            s@.len() >= n,
            i <= n,
            forall|j: int| 0 <= j < i ==> matches_ci(s@[j], kw@[j]),
        decreases n - i,
    {
        let c = s.get_char(i);
        let k = kw.get_char(i);
        let ku = k as u32;
        let cu = c as u32;
        if !(c == k || (97 <= ku && ku <= 122 && cu == ku - 32)) {
            return false;
        }
        i += 1;
    }
    true
}

/// The character for one decimal digit.
pub open spec fn dec_digit_char(n: int) -> char {
    if n == 0 {
        '0'
    } else if n == 1 {
        '1'
    } else if n == 2 {
        '2'
    } else if n == 3 {
        '3'
    } else if n == 4 {
        '4'
    } else if n == 5 {
        '5'
    } else if n == 6 {
        '6'
    } else if n == 7 {
        '7'
    } else if n == 8 {
        '8'
    } else {
        '9'
    }
}

/// The decimal digits of `n`, most significant first, with no sign and no
/// leading zeros (a single `'0'` for zero).
pub open spec fn dec_digits(n: nat) -> Seq<char>
    decreases n,
{
    if n < 10 {
        seq![dec_digit_char(n as int)]
    } else {
        dec_digits(n / 10) + seq![dec_digit_char((n % 10) as int)]
    }
}

/// The decimal text of a possibly negative integer.
pub open spec fn int_text(i: int) -> Seq<char> {
    if i < 0 {
        seq!['-'] + dec_digits((-i) as nat)
    } else {
        dec_digits(i as nat)
    }
}

fn digit_char(d: u64) -> (c: char)
    requires
        d < 10,
    ensures
        c == dec_digit_char(d as int),
{
    if d == 0 {
        '0'
    } else if d == 1 {
        '1'
    } else if d == 2 {
        '2'
    } else if d == 3 {
        '3'
    } else if d == 4 {
        '4'
    } else if d == 5 {
        '5'
    } else if d == 6 {
        '6'
    } else if d == 7 {
        '7'
    } else if d == 8 {
        '8'
    } else {
        '9'
    }
}

/// Relies on `String::push`: appends the given character to the end of the
/// string.
#[verifier::external_body]
pub(crate) fn push_char(s: &mut String, c: char)
    ensures
        final(s)@ == old(s)@.push(c),
{
    s.push(c);
}

fn push_dec_digits(n: u64, out: &mut String)
    ensures
        final(out)@ == old(out)@ + dec_digits(n as nat),
    decreases n,
{
    if n < 10 {
        push_char(out, digit_char(n));
        assert(final(out)@ =~= old(out)@ + dec_digits(n as nat));
    } else {
        push_dec_digits(n / 10, out);
        push_char(out, digit_char(n % 10));
        assert(final(out)@ =~= old(out)@ + dec_digits(n as nat));
    }
}

/// Decimal text of an unsigned 64-bit integer.
pub fn u64_to_string(n: u64) -> (r: String)
    ensures
        r@ == dec_digits(n as nat),
{
    let mut out = String::new();
    push_dec_digits(n, &mut out);
    assert(out@ =~= dec_digits(n as nat));
    out
}

/// Decimal text of a signed 64-bit integer.
pub fn i64_to_string(n: i64) -> (r: String)
    ensures
        r@ == int_text(n as int),
{
    if n >= 0 {
        u64_to_string(n as u64)
    } else {
        let mag: u64 = if n == i64::MIN {
            9223372036854775808u64
        } else {
            (-n) as u64
        };
        assert(mag as int == -(n as int));
        let mut out = String::new();
        push_char(&mut out, '-');
        push_dec_digits(mag, &mut out);
        assert(out@ =~= int_text(n as int));
        out
    }
}

/// The string holding exactly the given characters.
pub fn chars_to_string(v: &Vec<char>) -> (r: String)
    ensures
        r@ == v@,
{
    let mut out = String::new();
    let mut i: usize = 0;
    while i < v.len()
        invariant
            i <= v@.len(),
            out@ == v@.subrange(0, i as int),
        decreases v@.len() - i,
    {
        push_char(&mut out, v[i]);
        i += 1;
        assert(out@ =~= v@.subrange(0, i as int));
    }
    assert(out@ =~= v@);
    out
}

/// The characters of a string slice, in order.
pub fn str_to_chars(s: &str) -> (r: Vec<char>)
    ensures
        r@ == s@,
{
    let len = s.unicode_len();
    let mut out: Vec<char> = Vec::new();
    let mut i: usize = 0;
    while i < len
        invariant
            len == s@.len(),
            i <= len,
            out@ == s@.subrange(0, i as int),
        decreases len - i,
    {
        out.push(s.get_char(i));
        i += 1;
        assert(out@ =~= s@.subrange(0, i as int));
    }
    assert(out@ =~= s@);
    out
}

/// An ASCII decimal digit.
pub open spec fn is_dec_digit(c: char) -> bool {
    48 <= c as u32 <= 57
}

/// The numeric value of a digit character.
pub open spec fn digit_val(c: char) -> int {
    c as u32 - 48
}

/// The value of a digit string read in base ten.
pub open spec fn dec_val(s: Seq<char>) -> int
    decreases s.len(),
{
    if s.len() == 0 {
        0
    } else {
        dec_val(s.drop_last()) * 10 + digit_val(s.last())
    }
}

/// `s` without one optional leading `'+'`.
pub open spec fn plus_stripped(s: Seq<char>) -> Seq<char> {
    if s.len() > 0 && s[0] == '+' {
        s.drop_first()
    } else {
        s
    }
}

/// Every character is an ASCII decimal digit.
pub open spec fn all_dec_digits(s: Seq<char>) -> bool {
    forall|i: int| 0 <= i < s.len() ==> is_dec_digit(s[i])
}

/// What `str::parse::<u16>` accepts: an optional leading `'+'`, then at
/// least one decimal digit, with a value of at most 65535.
pub open spec fn parse_u16_spec(s: Seq<char>) -> Option<u16> {
    if plus_stripped(s).len() > 0 && all_dec_digits(plus_stripped(s)) && dec_val(plus_stripped(s))
        <= 65535 {
        Some(dec_val(plus_stripped(s)) as u16)
    } else {
        None
    }
}

proof fn lemma_dec_val_bounds(s: Seq<char>)
    requires
        all_dec_digits(s),
    ensures
        dec_val(s) >= 0,
        s.len() > 0 ==> dec_val(s) >= dec_val(s.drop_last()),
    decreases s.len(),
{
    if s.len() > 0 {
        lemma_dec_val_bounds(s.drop_last());
    }
}

proof fn lemma_dec_val_prefix(s: Seq<char>, i: int)
    requires
        all_dec_digits(s),
        0 <= i <= s.len(),
    ensures
        dec_val(s.subrange(0, i)) <= dec_val(s),
    decreases s.len() - i,
{
    if i < s.len() {
        lemma_dec_val_prefix(s, i + 1);
        assert(s.subrange(0, i + 1).drop_last() =~= s.subrange(0, i));
        assert(forall|j: int| 0 <= j < i + 1 ==> is_dec_digit(#[trigger] s.subrange(0, i + 1)[j]));
        lemma_dec_val_bounds(s.subrange(0, i + 1));
    } else {
        assert(s.subrange(0, i) =~= s);
    }
}

/// Reads an unsigned 16-bit port number the way `str::parse::<u16>` does.
pub fn parse_u16(s: &str) -> (r: Option<u16>)
    ensures
        r == parse_u16_spec(s@),
{
    let len = s.unicode_len();
    let start: usize = if len > 0 && s.get_char(0) == '+' {
        1
    } else {
        0
    };
    let ghost d = plus_stripped(s@);
    assert(d =~= s@.subrange(start as int, len as int));
    if start == len {
        return None;
    }
    let mut acc: u32 = 0;
    let mut i: usize = start;
    while i < len
        invariant
            len == s@.len(),
            start <= i <= len,
            start as int == (if s@.len() > 0 && s@[0] == '+' {
                1int
            } else {
                0int
            }),
            d == plus_stripped(s@),
            d =~= s@.subrange(start as int, len as int),
            forall|j: int| start <= j < i ==> is_dec_digit(s@[j]),
            acc <= 65535,
            acc as int == dec_val(s@.subrange(start as int, i as int)),
        decreases len - i,
    {
        let c = s.get_char(i);
        let cu = c as u32;
        if !(48 <= cu && cu <= 57) {
            proof {
                assert(d[i - start as int] == s@[i as int]);
                assert(!is_dec_digit(d[i - start as int]));
                assert(!all_dec_digits(d));
            }
            return None;
        }
        let dv: u32 = cu - 48;
        let next: u32 = acc * 10 + dv;
        assert(s@.subrange(start as int, i + 1 as int).drop_last() =~= s@.subrange(
            start as int,
            i as int,
        ));
        if next > 65535 {
            proof {
                assert(next as int == dec_val(s@.subrange(start as int, i + 1)));
                if all_dec_digits(d) {
                    lemma_dec_val_prefix(d, i + 1 - start as int);
                    assert(d.subrange(0, i + 1 - start as int) =~= s@.subrange(
                        start as int,
                        i + 1,
                    ));
                    assert(dec_val(d) > 65535);
                }
            }
            return None;
        }
        acc = next;
        i += 1;
    }
    proof {
        assert forall|j: int| 0 <= j < d.len() implies is_dec_digit(d[j]) by {
            assert(d[j] == s@[j + start]);
        }
        assert(all_dec_digits(d));
        assert(s@.subrange(start as int, len as int) == d);
    }
    Some(acc as u16)
}

} // verus!
