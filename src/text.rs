//! Decimal numbers and character sequences, as std's integer parsing and
//! formatting read and write them.
use vstd::prelude::*;

verus! {

/// An ASCII decimal digit.
pub open spec fn is_digit(c: char) -> bool {
    '0' <= c && c <= '9'
}

/// The value of an ASCII decimal digit.
pub open spec fn digit_val(c: char) -> int {
    c as int - '0' as int
}

/// Whether every character is an ASCII digit.
pub open spec fn all_digits(s: Seq<char>) -> bool {
    forall|i: int| 0 <= i < s.len() ==> is_digit(#[trigger] s[i])
}

/// The number that a run of decimal digits denotes.
pub open spec fn digits_value(s: Seq<char>) -> int
    decreases s.len(),
{
    if s.len() == 0 {
        0
    } else {
        10 * digits_value(s.drop_last()) + digit_val(s.last())
    }
}

/// What std's integer parsing reads from a text: an optional sign, then one or
/// more ASCII digits, and nothing else.
pub open spec fn signed_value(s: Seq<char>) -> Option<int> {
    if s.len() > 1 && (s[0] == '-' || s[0] == '+') && all_digits(s.skip(1)) {
        if s[0] == '-' {
            Some(-digits_value(s.skip(1)))
        } else {
            Some(digits_value(s.skip(1)))
        }
    } else if s.len() > 0 && all_digits(s) {
        Some(digits_value(s))
    } else {
        None
    }
}

/// `s.parse::<i64>()`, as an `Option`.
pub open spec fn i64_of(s: Seq<char>) -> Option<i64> {
    match signed_value(s) {
        Some(v) => if i64::MIN <= v <= i64::MAX {
            Some(v as i64)
        } else {
            None
        },
        None => None,
    }
}

/// `s.parse::<i32>()`, as an `Option`.
pub open spec fn i32_of(s: Seq<char>) -> Option<i32> {
    match signed_value(s) {
        Some(v) => if i32::MIN <= v <= i32::MAX {
            Some(v as i32)
        } else {
            None
        },
        None => None,
    }
}

/// `s.parse::<u64>()`, as an `Option`: unsigned text takes no minus sign.
pub open spec fn u64_of(s: Seq<char>) -> Option<u64> {
    if s.len() > 0 && s[0] == '-' {
        None
    } else {
        match signed_value(s) {
            Some(v) => if 0 <= v <= u64::MAX {
                Some(v as u64)
            } else {
                None
            },
            None => None,
        }
    }
}

/// The ASCII digit of a value from 0 to 9.
pub open spec fn digit_char(d: int) -> char {
    if d == 0 { '0' } else if d == 1 { '1' } else if d == 2 { '2' } else if d == 3 { '3' }
    else if d == 4 { '4' } else if d == 5 { '5' } else if d == 6 { '6' } else if d == 7 { '7' }
    else if d == 8 { '8' } else { '9' }
}

fn digit_char_of(d: u64) -> (c: char)
    requires
        d < 10,
    ensures
        c == digit_char(d as int),
        digit_val(c) == d,
{
    if d == 0 { '0' } else if d == 1 { '1' } else if d == 2 { '2' } else if d == 3 { '3' }
    else if d == 4 { '4' } else if d == 5 { '5' } else if d == 6 { '6' } else if d == 7 { '7' }
    else if d == 8 { '8' } else { '9' }
}

/// The decimal digits of a natural number, without leading zeros.
pub open spec fn digits_text(n: nat) -> Seq<char>
    decreases n,
{
    if n < 10 {
        seq![digit_char(n as int)]
    } else {
        digits_text(n / 10).push(digit_char(n as int % 10))
    }
}

/// How `{}` writes an integer.
pub open spec fn decimal_text(v: int) -> Seq<char> {
    if v < 0 {
        seq!['-'] + digits_text((-v) as nat)
    } else {
        digits_text(v as nat)
    }
}

/// A prefix of a run of digits denotes no more than the whole run.
pub proof fn lemma_digits_value_prefix(s: Seq<char>, i: int)
    requires
        all_digits(s),
        0 <= i <= s.len(),
    ensures
        0 <= digits_value(s.subrange(0, i)) <= digits_value(s),
    decreases s.len(),
{
    if s.len() > 0 {
        let t = s.drop_last();
        assert(all_digits(t));
        assert(is_digit(s[s.len() - 1]));
        if i == s.len() {
            assert(s.subrange(0, i) =~= s);
            lemma_digits_value_prefix(t, t.len() as int);
            assert(t.subrange(0, t.len() as int) =~= t);
        } else {
            lemma_digits_value_prefix(t, i);
            assert(t.subrange(0, i) =~= s.subrange(0, i));
            lemma_digits_value_prefix(t, t.len() as int);
            assert(t.subrange(0, t.len() as int) =~= t);
        }
    }
}

proof fn lemma_digits_text(n: nat)
    ensures
        digits_text(n).len() > 0,
        all_digits(digits_text(n)),
        digits_value(digits_text(n)) == n,
    decreases n,
{
    if n < 10 {
        assert(digit_val(digit_char(n as int)) == n);
        assert(digits_text(n).drop_last() =~= Seq::<char>::empty());
        assert(digits_value(Seq::<char>::empty()) == 0);
    } else {
        lemma_digits_text(n / 10);
        let t = digits_text(n / 10);
        let d = n as int % 10;
        assert(digit_val(digit_char(d)) == d);
        assert(n == 10 * (n / 10) + d);
        assert(digits_text(n).drop_last() =~= t);
        assert forall|i: int| 0 <= i < digits_text(n).len() implies is_digit(
            #[trigger] digits_text(n)[i],
        ) by {
            if i < t.len() {
                assert(digits_text(n)[i] == t[i]);
            }
        }
    }
}

/// Reading back the decimal text of an integer gives the integer.
pub proof fn lemma_decimal_round_trip(v: int)
    ensures
        signed_value(decimal_text(v)) == Some(v),
        decimal_text(v).len() > 0,
        forall|i: int| 0 <= i < decimal_text(v).len() ==> #[trigger] decimal_text(v)[i] != ':',
{
    if v < 0 {
        let d = digits_text((-v) as nat);
        lemma_digits_text((-v) as nat);
        assert(decimal_text(v).skip(1) =~= d);
        assert forall|i: int| 0 <= i < decimal_text(v).len() implies #[trigger] decimal_text(
            v,
        )[i] != ':' by {
            if i > 0 {
                assert(decimal_text(v)[i] == d[i - 1]);
                assert(is_digit(d[i - 1]));
            }
        }
    } else {
        let d = digits_text(v as nat);
        lemma_digits_text(v as nat);
        assert(is_digit(d[0]));
        assert forall|i: int| 0 <= i < decimal_text(v).len() implies #[trigger] decimal_text(
            v,
        )[i] != ':' by {
            assert(is_digit(d[i]));
        }
    }
}

/// Relies on `String::push`: appends one character.
#[verifier::external_body]
pub(crate) fn push_char(s: &mut String, c: char)
    ensures
        final(s)@ == old(s)@.push(c),
{
    s.push(c)
}

/// The characters of a text, one by one.
pub fn chars_of(s: &str) -> (r: Vec<char>)
    ensures
        r@ == s@,
{
    let n = s.unicode_len();
    let mut r: Vec<char> = Vec::new();
    let mut i: usize = 0;
    while i < n
        invariant
            n == s@.len(),
            i <= n,
            r@ == s@.subrange(0, i as int),
        decreases n - i,
    {
        r.push(s.get_char(i));
        i = i + 1;
        assert(r@ =~= s@.subrange(0, i as int));
    }
    assert(r@ =~= s@);
    r
}

/// A text made of the given characters.
pub fn string_of(cs: &[char]) -> (r: String)
    ensures
        r@ == cs@,
{
    let mut r = String::new();
    let mut i: usize = 0;
    while i < cs.len()
        invariant
            i <= cs@.len(),
            r@ == cs@.subrange(0, i as int),
        decreases cs@.len() - i,
    {
        push_char(&mut r, cs[i]);
        i = i + 1;
        assert(r@ =~= cs@.subrange(0, i as int));
    }
    assert(r@ =~= cs@);
    r
}

/// The number that the digits `s[start..]` denote, where all of them are
/// ASCII digits, there is at least one, and the number fits in a `u64`.
fn digits_magnitude(s: &[char], start: usize) -> (r: Option<u64>)
    requires
        start <= s@.len(),
    ensures
        r == (if start < s@.len() && all_digits(s@.skip(start as int)) && digits_value(
            s@.skip(start as int),
        ) <= u64::MAX {
            Some(digits_value(s@.skip(start as int)) as u64)
        } else {
            None
        }),
        r matches Some(v) ==> v as int == digits_value(s@.skip(start as int)),
{
    let ghost t = s@.skip(start as int);
    if start >= s.len() {
        return None;
    }
    let mut acc: u64 = 0;
    let mut i: usize = start;
    while i < s.len()
        invariant
            start <= i <= s@.len(),
            t == s@.skip(start as int),
            all_digits(t.subrange(0, i - start)),
            acc as int == digits_value(t.subrange(0, i - start)),
        decreases s@.len() - i,
    {
        let c = s[i];
        if !('0' <= c && c <= '9') {
            assert(t[i - start] == c);
            return None;
        }
        let d = (c as u32 - '0' as u32) as u64;
        let ghost pre = t.subrange(0, i - start);
        let ghost next = t.subrange(0, i + 1 - start);
        assert(next.drop_last() =~= pre);
        assert(next.last() == c);
        assert(all_digits(next)) by {
            assert forall|j: int| 0 <= j < next.len() implies is_digit(#[trigger] next[j]) by {
                if j < pre.len() {
                    assert(next[j] == pre[j]);
                }
            }
        }
        if acc > (u64::MAX - d) / 10 {
            proof {
                assert(10 * acc + d > u64::MAX) by (nonlinear_arith)
                    requires
                        acc > (u64::MAX - d) / 10,
                        d <= 9,
                ;
                if all_digits(t) {
                    lemma_digits_value_prefix(t, i + 1 - start);
                }
            }
            return None;
        }
        acc = acc * 10 + d;
        i = i + 1;
    }
    assert(t.subrange(0, i - start) =~= t);
    Some(acc)
}

/// `s.parse::<i64>().ok()`.
pub fn parse_i64(s: &[char]) -> (r: Option<i64>)
    ensures
        r == i64_of(s@),
{
    let signed = s.len() > 1 && (s[0] == '-' || s[0] == '+');
    let start: usize = if signed { 1 } else { 0 };
    let m = digits_magnitude(s, start);
    proof {
        if signed {
            assert(!is_digit(s@[0]));
            assert(!all_digits(s@));
        } else {
            assert(s@.skip(0) =~= s@);
        }
    }
    match m {
        None => {
            proof {
                let t = s@.skip(start as int);
                if start < s@.len() && all_digits(t) {
                    assert(digits_value(t) > u64::MAX);
                    if signed {
                        assert(t =~= s@.skip(1));
                        assert(signed_value(s@) is Some);
                        let v = signed_value(s@)->0;
                        assert(v == digits_value(t) || v == -digits_value(t));
                        assert(i64_of(s@) is None);
                    } else {
                        assert(signed_value(s@) == Some(digits_value(s@)));
                        assert(i64_of(s@) is None);
                    }
                } else if signed {
                    assert(!all_digits(s@.skip(1)));
                    assert(signed_value(s@) is None);
                } else {
                    assert(signed_value(s@) is None);
                }
                assert(i64_of(s@) is None);
            }
            None
        },
        Some(m) => {
            proof {
                let t = s@.skip(start as int);
                if signed {
                    assert(t =~= s@.skip(1));
                    if s@[0] == '-' {
                        assert(signed_value(s@) == Some(-(m as int)));
                    } else {
                        assert(signed_value(s@) == Some(m as int));
                    }
                } else {
                    assert(signed_value(s@) == Some(m as int));
                }
            }
            if signed && s[0] == '-' {
                if m <= 9223372036854775808 {
                    Some((0 - m as i128) as i64)
                } else {
                    None
                }
            } else {
                if m <= 9223372036854775807 {
                    Some(m as i64)
                } else {
                    None
                }
            }
        },
    }
}

/// `s.parse::<i32>().ok()`.
pub fn parse_i32(s: &[char]) -> (r: Option<i32>)
    ensures
        r == i32_of(s@),
{
    match parse_i64(s) {
        Some(v) => if -2147483648 <= v && v <= 2147483647 {
            Some(v as i32)
        } else {
            None
        },
        None => {
            proof {
                if let Some(v) = signed_value(s@) {
                    assert(!(i64::MIN <= v <= i64::MAX));
                }
            }
            None
        },
    }
}

/// `s.parse::<u64>().ok()`.
pub fn parse_u64(s: &[char]) -> (r: Option<u64>)
    ensures
        r == u64_of(s@),
{
    if s.len() > 0 && s[0] == '-' {
        return None;
    }
    let signed = s.len() > 1 && s[0] == '+';
    let start: usize = if signed { 1 } else { 0 };
    let r = digits_magnitude(s, start);
    proof {
        if s@.len() > 0 && s@[0] == '+' {
            assert(!is_digit(s@[0]));
            assert(!all_digits(s@));
        }
        if !signed {
            assert(s@.skip(0) =~= s@);
        }
    }
    r
}

/// The decimal text of a natural number.
fn digits_string(n: u64) -> (r: Vec<char>)
    ensures
        r@ == digits_text(n as nat),
    decreases n,
{
    if n < 10 {
        let c = digit_char_of(n);
        let mut r: Vec<char> = Vec::new();
        r.push(c);
        assert(r@ =~= seq![digit_char(n as int)]);
        r
    } else {
        let mut r = digits_string(n / 10);
        let c = digit_char_of(n % 10);
        r.push(c);
        r
    }
}

/// `v.to_string()`, for an `i64`.
pub fn decimal_of(v: i64) -> (r: Vec<char>)
    ensures
        r@ == decimal_text(v as int),
{
    if v < 0 {
        let m: u64 = (0 - (v as i128)) as u64;
        let d = digits_string(m);
        let mut r: Vec<char> = Vec::new();
        r.push('-');
        let mut i: usize = 0;
        while i < d.len()
            invariant
                i <= d@.len(),
                r@ == seq!['-'] + d@.subrange(0, i as int),
            decreases d@.len() - i,
        {
            r.push(d[i]);
            i = i + 1;
            assert(r@ =~= seq!['-'] + d@.subrange(0, i as int));
        }
        assert(d@.subrange(0, d@.len() as int) =~= d@);
        r
    } else {
        digits_string(v as u64)
    }
}

/// Appends characters to a buffer.
pub fn append_chars(dst: &mut Vec<char>, src: &[char])
    ensures
        final(dst)@ == old(dst)@ + src@,
{
    let ghost base = dst@;
    let mut i: usize = 0;
    while i < src.len()
        invariant
            i <= src@.len(),
            dst@ == base + src@.subrange(0, i as int),
        decreases src@.len() - i,
    {
        dst.push(src[i]);
        i = i + 1;
        assert(dst@ =~= base + src@.subrange(0, i as int));
    }
    assert(src@.subrange(0, src@.len() as int) =~= src@);
}

/// Whether `p` begins `s`.
pub open spec fn has_prefix(s: Seq<char>, p: Seq<char>) -> bool {
    p.len() <= s.len() && s.subrange(0, p.len() as int) == p
}

/// Whether `p` begins `s`.
pub fn starts_with(s: &[char], p: &[char]) -> (r: bool)
    ensures
        r == has_prefix(s@, p@),
{
    if p.len() > s.len() {
        return false;
    }
    let mut i: usize = 0;
    while i < p.len()
        invariant
            p@.len() <= s@.len(),
            i <= p@.len(),
            forall|j: int| 0 <= j < i ==> s@[j] == p@[j],
        decreases p@.len() - i,
    {
        if s[i] != p[i] {
            assert(s@.subrange(0, p@.len() as int)[i as int] != p@[i as int]);
            return false;
        }
        i = i + 1;
    }
    assert(s@.subrange(0, p@.len() as int) =~= p@);
    true
}

/// The characters that `char::is_whitespace` accepts: Unicode's White_Space.
pub open spec fn is_ws(c: char) -> bool {
    ('\u{9}' <= c && c <= '\u{d}') || c == ' ' || c == '\u{85}' || c == '\u{a0}' || c
        == '\u{1680}' || ('\u{2000}' <= c && c <= '\u{200a}') || c == '\u{2028}' || c
        == '\u{2029}' || c == '\u{202f}' || c == '\u{205f}' || c == '\u{3000}'
}

/// `char::is_whitespace`.
pub fn is_whitespace(c: char) -> (r: bool)
    ensures
        r == is_ws(c),
{
    ('\u{9}' <= c && c <= '\u{d}') || c == ' ' || c == '\u{85}' || c == '\u{a0}' || c
        == '\u{1680}' || ('\u{2000}' <= c && c <= '\u{200a}') || c == '\u{2028}' || c
        == '\u{2029}' || c == '\u{202f}' || c == '\u{205f}' || c == '\u{3000}'
}

/// A set of characters to trim.
#[derive(Clone, Copy)]
pub enum CharClass {
    One(char),
    Whitespace,
}

/// Whether `c` belongs to the class.
pub open spec fn in_class(k: CharClass, c: char) -> bool {
    match k {
        CharClass::One(x) => c == x,
        CharClass::Whitespace => is_ws(c),
    }
}

fn class_has(k: CharClass, c: char) -> (r: bool)
    ensures
        r == in_class(k, c),
{
    match k {
        CharClass::One(x) => c == x,
        CharClass::Whitespace => is_whitespace(c),
    }
}

/// `s` without the characters of `k` at its start.
pub open spec fn trim_start_class(s: Seq<char>, k: CharClass) -> Seq<char>
    decreases s.len(),
{
    if s.len() > 0 && in_class(k, s[0]) {
        trim_start_class(s.skip(1), k)
    } else {
        s
    }
}

/// `s` without the characters of `k` at its end.
pub open spec fn trim_end_class(s: Seq<char>, k: CharClass) -> Seq<char>
    decreases s.len(),
{
    if s.len() > 0 && in_class(k, s.last()) {
        trim_end_class(s.drop_last(), k)
    } else {
        s
    }
}

/// `s` without the characters of `k` at either end.
pub open spec fn trim_class(s: Seq<char>, k: CharClass) -> Seq<char> {
    trim_end_class(trim_start_class(s, k), k)
}

/// Trims the characters of `k` at the start (where `front`) and at the end
/// (where `back`).
pub fn trim_chars(s: &[char], k: CharClass, front: bool, back: bool) -> (r: Vec<char>)
    ensures
        r@ == ({
            let t = if front {
                trim_start_class(s@, k)
            } else {
                s@
            };
            if back {
                trim_end_class(t, k)
            } else {
                t
            }
        }),
{
    let n = s.len();
    let mut i: usize = 0;
    assert(s@.skip(0) =~= s@);
    if front {
        while i < n && class_has(k, s[i])
            invariant
                n == s@.len(),
                i <= n,
                trim_start_class(s@, k) == trim_start_class(s@.skip(i as int), k),
            decreases n - i,
        {
            assert(s@.skip(i as int).skip(1) =~= s@.skip(i + 1));
            i = i + 1;
        }
    }
    assert(s@.skip(0) =~= s@);
    let ghost t = s@.skip(i as int);
    let mut j: usize = n;
    if back {
        while j > i && class_has(k, s[j - 1])
            invariant
                n == s@.len(),
                i <= j <= n,
                t == s@.skip(i as int),
                trim_end_class(t, k) == trim_end_class(s@.subrange(i as int, j as int), k),
            decreases j,
        {
            assert(s@.subrange(i as int, j as int).drop_last() =~= s@.subrange(i as int, j - 1));
            j = j - 1;
        }
    }
    assert(s@.subrange(i as int, n as int) =~= t);
    let mut r: Vec<char> = Vec::new();
    append_chars(&mut r, &s[i..j]);
    proof {
        if !front {
            assert(i == 0);
        }
        if !back {
            assert(j == n);
        }
    }
    r
}

/// Ten to the power `k`.
pub open spec fn pow10(k: nat) -> nat
    decreases k,
{
    if k == 0 {
        1
    } else {
        10 * pow10((k - 1) as nat)
    }
}

/// A number below ten to the `k` has at most `k` ASCII digits.
pub proof fn lemma_digits_text_short(n: nat, k: nat)
    requires
        k >= 1,
        n < pow10(k),
    ensures
        digits_text(n).len() <= k,
        vstd::utf8::is_ascii_chars(digits_text(n)),
    decreases n,
{
    if n >= 10 {
        assert(k >= 2) by {
            if k == 1 {
                assert(pow10(1) == 10) by {
                    reveal_with_fuel(pow10, 2);
                }
            }
        }
        assert(n / 10 < pow10((k - 1) as nat)) by {
            assert(pow10(k) == 10 * pow10((k - 1) as nat));
        }
        lemma_digits_text_short(n / 10, (k - 1) as nat);
        let t = digits_text(n / 10);
        assert forall|i: int| 0 <= i < digits_text(n).len() implies '\0' <= #[trigger] digits_text(
            n,
        )[i] <= '\u{7f}' by {
            if i < t.len() {
                assert(digits_text(n)[i] == t[i]);
            }
        }
    }
}

/// The decimal text of an `i64` is ASCII and has at most 20 characters.
pub proof fn lemma_decimal_text_short(v: i64)
    ensures
        decimal_text(v as int).len() <= 20,
        vstd::utf8::is_ascii_chars(decimal_text(v as int)),
{
    assert(pow10(19) == 10000000000000000000) by {
        reveal_with_fuel(pow10, 20);
    }
    if v < 0 {
        lemma_digits_text_short((-v) as nat, 19);
        let d = digits_text((-(v as int)) as nat);
        assert forall|i: int| 0 <= i < decimal_text(v as int).len() implies '\0'
            <= #[trigger] decimal_text(v as int)[i] <= '\u{7f}' by {
            if i > 0 {
                assert(decimal_text(v as int)[i] == d[i - 1]);
            }
        }
    } else {
        lemma_digits_text_short(v as nat, 19);
    }
}

} // verus!
