//! Text helpers: characters of a string, decimal numerals, splitting and
//! trimming, each with its meaning over `Seq<char>`.

use vstd::prelude::*;
use vstd::string::*;

verus! {

/// `String::push`: the character is appended at the end.
pub assume_specification[ String::push ](s: &mut String, c: char)
    ensures
        final(s)@ == old(s)@.push(c),
;

// ---------------------------------------------------------------------------
// Characters
// ---------------------------------------------------------------------------

/// The characters of a string, in order.
pub fn chars(s: &str) -> (out: Vec<char>)
    ensures
        out@ == s@,
{
    let mut out: Vec<char> = Vec::new();
    for c in it: s.chars()
        invariant
            it.seq() == s@,
            out@ == s@.take(it.index() as int),
    {
        out.push(c);
        assert(out@ == s@.take(it.index() + 1));
    }
    assert(s@.take(s@.len() as int) == s@);
    out
}

/// The string made of the characters from `from` up to, not including, `to`.
pub fn text_between(cs: &Vec<char>, from: usize, to: usize) -> (out: String)
    requires
        from <= to <= cs@.len(),
    ensures
        out@ == cs@.subrange(from as int, to as int),
{
    let mut out = String::new();
    let mut i: usize = from;
    assert(out@ == cs@.subrange(from as int, from as int));
    while i < to
        invariant
            from <= i <= to <= cs@.len(),
            out@ == cs@.subrange(from as int, i as int),
        decreases to - i,
    {
        out.push(cs[i]);
        i = i + 1;
        assert(out@ == cs@.subrange(from as int, i as int));
    }
    out
}

/// Whether two strings hold the same characters.
pub fn same_text(a: &str, b: &str) -> (r: bool)
    ensures
        r == (a@ == b@),
{
    let x: &[u8] = a.as_bytes();
    let y: &[u8] = b.as_bytes();
    proof {
        vstd::utf8::encode_utf8_decode_utf8(a@);
        vstd::utf8::encode_utf8_decode_utf8(b@);
    }
    if x.len() != y.len() {
        return false;
    }
    let mut i: usize = 0;
    while i < x.len()
        invariant
            i <= x@.len(),
            x@.len() == y@.len(),
            x@ == a.spec_bytes(),
            y@ == b.spec_bytes(),
            forall|k: int| 0 <= k < i ==> x@[k] == y@[k],
        decreases x@.len() - i,
    {
        if x[i] != y[i] {
            return false;
        }
        i = i + 1;
    }
    assert(x@ =~= y@);
    true
}

// ---------------------------------------------------------------------------
// Decimal numerals
// ---------------------------------------------------------------------------

/// The character of a decimal digit.
pub open spec fn digit_char(d: nat) -> char {
    (48 + d) as char
}

pub open spec fn is_digit(c: char) -> bool {
    '0' <= c <= '9'
}

/// The value of a decimal digit.
pub open spec fn digit_value(c: char) -> nat {
    (c as nat - 48) as nat
}

/// The decimal numeral of a number, without leading zeros.
pub open spec fn decimal(n: nat) -> Seq<char>
    decreases n,
{
    if n < 10 {
        seq![digit_char(n)]
    } else {
        decimal(n / 10).push(digit_char(n % 10))
    }
}

/// The decimal numeral of an integer, with a minus sign if it is negative.
pub open spec fn int_text(i: int) -> Seq<char> {
    if i < 0 {
        seq!['-'] + decimal((-i) as nat)
    } else {
        decimal(i as nat)
    }
}

/// Exactly the last `width` decimal digits of a number.
pub open spec fn low_digits(n: nat, width: nat) -> Seq<char>
    decreases width,
{
    if width == 0 {
        seq![]
    } else {
        low_digits(n / 10, (width - 1) as nat).push(digit_char(n % 10))
    }
}

pub open spec fn all_digits(s: Seq<char>) -> bool {
    forall|i: int| 0 <= i < s.len() ==> is_digit(#[trigger] s[i])
}

/// The number that a sequence of decimal digits stands for.
pub open spec fn digits_value(s: Seq<char>) -> nat
    decreases s.len(),
{
    if s.len() == 0 {
        0
    } else {
        digits_value(s.drop_last()) * 10 + digit_value(s.last())
    }
}

/// The number that a text stands for when it is read as an unsigned integer
/// that is at most `max`: decimal digits, at least one, after an optional `+`.
pub open spec fn parsed_nat(s: Seq<char>, max: nat) -> Option<nat> {
    let body = if s.len() > 0 && s[0] == '+' { s.skip(1) } else { s };
    if body.len() > 0 && all_digits(body) && digits_value(body) <= max {
        Some(digits_value(body))
    } else {
        None
    }
}

/// The number that a text stands for when it is read as a signed 64-bit
/// integer: decimal digits, at least one, after an optional sign.
pub open spec fn parsed_i64(s: Seq<char>) -> Option<int> {
    if s.len() > 0 && s[0] == '-' {
        let body = s.skip(1);
        if body.len() > 0 && all_digits(body) && digits_value(body) <= 0x8000_0000_0000_0000 {
            Some(-(digits_value(body) as int))
        } else {
            None
        }
    } else {
        match parsed_nat(s, 0x7fff_ffff_ffff_ffff) {
            Some(n) => Some(n as int),
            None => None,
        }
    }
}

/// Appends the decimal numeral of `n`.
pub fn push_decimal(out: &mut String, n: u128)
    ensures
        final(out)@ == old(out)@ + decimal(n as nat),
    decreases n,
{
    if n >= 10 {
        push_decimal(out, n / 10);
    }
    let d: u8 = (n % 10) as u8;
    out.push((48 + d) as char);
    assert(out@ == old(out)@ + decimal(n as nat));
}

/// The decimal numeral of an unsigned number.
pub fn decimal_text(n: u128) -> (out: String)
    ensures
        out@ == decimal(n as nat),
{
    let mut out = String::new();
    push_decimal(&mut out, n);
    assert(out@ == decimal(n as nat));
    out
}

/// The decimal numeral of a signed number.
pub fn signed_text(n: i128) -> (out: String)
    ensures
        out@ == int_text(n as int),
{
    let mut out = String::new();
    if n < 0 {
        out.push('-');
        let magnitude: u128 = ((-(n + 1)) as u128) + 1;
        push_decimal(&mut out, magnitude);
    } else {
        push_decimal(&mut out, n as u128);
    }
    assert(out@ == int_text(n as int));
    out
}

/// Appends exactly the last `width` decimal digits of `n`.
pub fn push_low_digits(out: &mut String, n: u64, width: u8)
    ensures
        final(out)@ == old(out)@ + low_digits(n as nat, width as nat),
    decreases width,
{
    if width > 0 {
        push_low_digits(out, n / 10, width - 1);
        let d: u8 = (n % 10) as u8;
        out.push((48 + d) as char);
    }
    assert(out@ == old(out)@ + low_digits(n as nat, width as nat));
}

/// Reads the digits of `cs` from position `from` on: their value, or nothing
/// if there is none, if another character occurs, or if it exceeds `max`.
fn digits_from(cs: &Vec<char>, from: usize, max: u64) -> (r: Option<u64>)
    requires
        from <= cs@.len(),
    ensures
        ({
            let body = cs@.skip(from as int);
            r == if body.len() > 0 && all_digits(body) && digits_value(body) <= max {
                Some(digits_value(body) as u64)
            } else {
                None
            }
        }),
{
    let ghost body = cs@.skip(from as int);
    if from == cs.len() {
        return None;
    }
    let mut over: bool = false;
    let mut value: u128 = 0;
    let mut i: usize = from;
    while i < cs.len()
        invariant
            from <= i <= cs@.len(),
            body == cs@.skip(from as int),
            all_digits(body.take(i - from)),
            over ==> digits_value(body.take(i - from)) > max,
            !over ==> value == digits_value(body.take(i - from)) && value <= max,
        decreases cs@.len() - i,
    {
        let c: char = cs[i];
        assert(body[i - from] == c);
        assert(body.take(i + 1 - from).drop_last() == body.take(i - from));
        if c < '0' || c > '9' {
            return None;
        }
        let d: u32 = (c as u32) - 48;
        if !over {
            value = value * 10 + d as u128;
            if value > max as u128 {
                over = true;
            }
        }
        i = i + 1;
        assert forall|k: int| 0 <= k < body.take(i - from).len() implies is_digit(
            #[trigger] body.take(i - from)[k],
        ) by {
            if k < i - from - 1 {
                assert(body.take(i - 1 - from)[k] == body.take(i - from)[k]);
            }
        }
    }
    assert(body.take(i - from) == body);
    if over {
        None
    } else {
        Some(value as u64)
    }
}

/// Reads a text as an unsigned integer that is at most `max`.
pub fn parse_nat(s: &str, max: u64) -> (r: Option<u64>)
    ensures
        match r {
            Some(n) => parsed_nat(s@, max as nat) == Some(n as nat),
            None => parsed_nat(s@, max as nat) is None,
        },
{
    let cs = chars(s);
    let from: usize = if cs.len() > 0 && cs[0] == '+' { 1 } else { 0 };
    assert(cs@.skip(0) == cs@);
    digits_from(&cs, from, max)
}

/// Reads a text as a signed 64-bit integer.
pub fn parse_i64(s: &str) -> (r: Option<i64>)
    ensures
        match r {
            Some(n) => parsed_i64(s@) == Some(n as int),
            None => parsed_i64(s@) is None,
        },
{
    let cs = chars(s);
    if cs.len() > 0 && cs[0] == '-' {
        match digits_from(&cs, 1, 0x8000_0000_0000_0000) {
            Some(m) => {
                if m == 0x8000_0000_0000_0000 {
                    Some(i64::MIN)
                } else {
                    Some(-(m as i64))
                }
            },
            None => None,
        }
    } else {
        match parse_nat(s, 0x7fff_ffff_ffff_ffff) {
            Some(m) => Some(m as i64),
            None => None,
        }
    }
}

// ---------------------------------------------------------------------------
// Splitting and trimming
// ---------------------------------------------------------------------------

/// Whether `pat` stands in `s` at position `at`.
pub open spec fn occurs_at(s: Seq<char>, pat: Seq<char>, at: int) -> bool {
    &&& 0 <= at
    &&& at + pat.len() <= s.len()
    &&& s.subrange(at, at + pat.len()) == pat
}

/// The first position from `from` on at which `pat` stands in `s`, or the
/// length of `s` if there is none.
pub open spec fn find_from(s: Seq<char>, pat: Seq<char>, from: int) -> int
    decreases s.len() - from,
{
    if from >= s.len() {
        s.len() as int
    } else if occurs_at(s, pat, from) {
        from
    } else {
        find_from(s, pat, from + 1)
    }
}

/// The parts of `s` before and after the first occurrence of `pat`.
pub open spec fn split_text(s: Seq<char>, pat: Seq<char>) -> Option<(Seq<char>, Seq<char>)> {
    let at = find_from(s, pat, 0);
    if at < s.len() {
        Some((s.take(at), s.skip(at + pat.len())))
    } else {
        None
    }
}

/// The pieces of `s` between the occurrences of `pat`.
pub open spec fn pieces_of(s: Seq<char>, pat: Seq<char>) -> Seq<Seq<char>>
    decreases s.len(),
{
    match split_text(s, pat) {
        Some((head, tail)) => if tail.len() < s.len() {
            seq![head] + pieces_of(tail, pat)
        } else {
            seq![s]
        },
        None => seq![s],
    }
}

/// `s` without the run of `c` at its end.
pub open spec fn trimmed_end(s: Seq<char>, c: char) -> Seq<char>
    decreases s.len(),
{
    if s.len() > 0 && s.last() == c {
        trimmed_end(s.drop_last(), c)
    } else {
        s
    }
}

pub open spec fn has_prefix(s: Seq<char>, prefix: Seq<char>) -> bool {
    s.len() >= prefix.len() && s.take(prefix.len() as int) == prefix
}

/// `s` without a suffix, if it ends so.
pub open spec fn without_suffix(s: Seq<char>, suffix: Seq<char>) -> Option<Seq<char>> {
    let n = s.len() - suffix.len();
    if n >= 0 && s.skip(n) == suffix {
        Some(s.take(n))
    } else {
        None
    }
}

fn chars_occur_at(s: &Vec<char>, pat: &Vec<char>, at: usize) -> (r: bool)
    requires
        at <= s@.len(),
    ensures
        r == occurs_at(s@, pat@, at as int),
{
    if pat.len() > s.len() - at {
        return false;
    }
    let mut i: usize = 0;
    while i < pat.len()
        invariant
            i <= pat@.len(),
            at + pat@.len() <= s.len(),
            forall|k: int| 0 <= k < i ==> s@[at + k] == pat@[k],
        decreases pat@.len() - i,
    {
        if s[at + i] != pat[i] {
            assert(s@.subrange(at as int, at + pat@.len())[i as int] != pat@[i as int]);
            return false;
        }
        i = i + 1;
    }
    assert(s@.subrange(at as int, at + pat@.len()) =~= pat@);
    true
}

/// `find_from` never points outside of the text.
pub proof fn lemma_find_range(s: Seq<char>, pat: Seq<char>, from: int)
    requires
        0 <= from <= s.len(),
    ensures
        from <= find_from(s, pat, from) <= s.len(),
        find_from(s, pat, from) < s.len() ==> occurs_at(s, pat, find_from(s, pat, from)),
    decreases s.len() - from,
{
    if from < s.len() && !occurs_at(s, pat, from) {
        lemma_find_range(s, pat, from + 1);
    }
}

/// Splits a text at the first occurrence of `pat`.
pub fn split_once(s: &str, pat: &str) -> (r: Option<(String, String)>)
    ensures
        match r {
            Some(p) => split_text(s@, pat@) == Some((p.0@, p.1@)),
            None => split_text(s@, pat@) is None,
        },
{
    let cs = chars(s);
    let ps = chars(pat);
    let mut at: usize = 0;
    while at < cs.len()
        invariant
            at <= cs@.len(),
            cs@ == s@,
            ps@ == pat@,
            find_from(s@, pat@, 0) == find_from(s@, pat@, at as int),
        decreases cs@.len() - at,
    {
        if chars_occur_at(&cs, &ps, at) {
            let head = text_between(&cs, 0, at);
            let tail = text_between(&cs, at + ps.len(), cs.len());
            assert(head@ == s@.take(at as int));
            assert(tail@ == s@.skip(at + pat@.len()));
            return Some((head, tail));
        }
        at = at + 1;
    }
    None
}

/// The pieces of a text between the occurrences of `pat`.
pub fn pieces(s: &str, pat: &str) -> (r: Vec<String>)
    requires
        pat@.len() > 0,
    ensures
        r.deep_view() == pieces_of(s@, pat@),
{
    let mut out: Vec<String> = Vec::new();
    let mut rest: String = s.to_owned();
    loop
        invariant
            pat@.len() > 0,
            pieces_of(s@, pat@) == out.deep_view() + pieces_of(rest@, pat@),
        decreases rest@.len(),
    {
        proof {
            lemma_find_range(rest@, pat@, 0);
        }
        let ghost before = out.deep_view();
        match split_once(rest.as_str(), pat) {
            Some(p) => {
                out.push(p.0);
                assert(out.deep_view() == before.push(p.0@));
                assert(before + (seq![p.0@] + pieces_of(p.1@, pat@)) == before.push(p.0@)
                    + pieces_of(p.1@, pat@));
                rest = p.1;
            },
            None => {
                let ghost last = rest@;
                out.push(rest);
                assert(out.deep_view() == before.push(last));
                assert(before + seq![last] == before.push(last));
                return out;
            },
        }
    }
}

/// A text without the run of `c` at its end.
pub fn trim_end(s: &str, c: char) -> (r: String)
    ensures
        r@ == trimmed_end(s@, c),
{
    let cs = chars(s);
    let mut n: usize = cs.len();
    assert(cs@.take(n as int) == cs@);
    while n > 0 && cs[n - 1] == c
        invariant
            n <= cs@.len(),
            trimmed_end(cs@, c) == trimmed_end(cs@.take(n as int), c),
        decreases n,
    {
        assert(cs@.take(n as int).drop_last() == cs@.take(n - 1));
        n = n - 1;
    }
    let r = text_between(&cs, 0, n);
    assert(r@ == cs@.take(n as int));
    r
}

pub fn starts_with(s: &str, prefix: &str) -> (r: bool)
    ensures
        r == has_prefix(s@, prefix@),
{
    let cs = chars(s);
    let ps = chars(prefix);
    let r = chars_occur_at(&cs, &ps, 0);
    assert(s@.len() >= prefix@.len() ==> s@.subrange(0, prefix@.len() as int) == s@.take(
        prefix@.len() as int,
    ));
    r
}

/// A text without a suffix, if it ends so.
pub fn strip_suffix(s: &str, suffix: &str) -> (r: Option<String>)
    ensures
        match r {
            Some(t) => without_suffix(s@, suffix@) == Some(t@),
            None => without_suffix(s@, suffix@) is None,
        },
{
    let cs = chars(s);
    let ps = chars(suffix);
    if ps.len() > cs.len() {
        return None;
    }
    let n: usize = cs.len() - ps.len();
    assert(s@.subrange(n as int, n + suffix@.len()) == s@.skip(n as int));
    if chars_occur_at(&cs, &ps, n) {
        let r = text_between(&cs, 0, n);
        assert(r@ == s@.take(n as int));
        Some(r)
    } else {
        None
    }
}

// ---------------------------------------------------------------------------
// Numerals read back
// ---------------------------------------------------------------------------

/// A decimal numeral is made of digits, and they stand for the number.
pub proof fn lemma_decimal_value(n: nat)
    ensures
        decimal(n).len() > 0,
        all_digits(decimal(n)),
        digits_value(decimal(n)) == n,
    decreases n,
{
    if n >= 10 {
        lemma_decimal_value(n / 10);
        assert(decimal(n).drop_last() == decimal(n / 10));
        assert forall|i: int| 0 <= i < decimal(n).len() implies is_digit(
            #[trigger] decimal(n)[i],
        ) by {
            if i < decimal(n).len() - 1 {
                assert(decimal(n)[i] == decimal(n / 10)[i]);
            }
        }
    } else {
        let s = decimal(n);
        assert(s.drop_last() == Seq::<char>::empty());
        assert(digits_value(s.drop_last()) == 0);
    }
}

/// Reading the numeral of a number gives the number back.
pub proof fn law_numeral_reads_back(n: nat, max: nat)
    requires
        n <= max,
    ensures
        parsed_nat(decimal(n), max) == Some(n),
{
    lemma_decimal_value(n);
    assert(is_digit(decimal(n)[0]));
}

/// Only digits, after an optional `+`, are read as a number, and only a number
/// that is not too large.
pub proof fn law_numbers_are_digits(s: Seq<char>, n: nat, max: nat)
    ensures
        parsed_nat(s, max) matches Some(v) ==> v <= max && s.len() > 0 && s != seq!['+']
            && forall|i: int|
            0 <= i < s.len() ==> '0' <= #[trigger] s[i] <= '9' || (i == 0 && s[i] == '+'),
        n > max ==> parsed_nat(decimal(n), max) is None,
{
    lemma_decimal_value(n);
    assert(is_digit(decimal(n)[0]));
    if parsed_nat(s, max) is Some && s[0] == '+' {
        assert forall|i: int| 0 <= i < s.len() implies '0' <= #[trigger] s[i] <= '9' || (i == 0
            && s[i] == '+') by {
            if i > 0 {
                assert(s.skip(1)[i - 1] == s[i]);
            }
        }
        assert(s.skip(1).len() > 0);
        assert(seq!['+'].len() == 1);
    }
    if parsed_nat(s, max) is Some && s[0] != '+' {
        assert(seq!['+'][0] == '+');
    }
}

/// Reading the numeral of a signed 64-bit number gives the number back.
pub proof fn law_signed_numeral_reads_back(i: int)
    requires
        i64::MIN <= i <= i64::MAX,
    ensures
        parsed_i64(int_text(i)) == Some(i),
{
    if i < 0 {
        lemma_decimal_value((-i) as nat);
        assert(int_text(i).skip(1) == decimal((-i) as nat));
    } else {
        lemma_decimal_value(i as nat);
        assert(is_digit(decimal(i as nat)[0]));
    }
}

/// The last `width` digits of a number: as many, all digits, and they stand
/// for the remainder.
pub proof fn lemma_low_digits_value(n: nat, width: nat)
    ensures
        low_digits(n, width).len() == width,
        all_digits(low_digits(n, width)),
        digits_value(low_digits(n, width)) == n % pow10(width),
        pow10(width) > 0,
    decreases width,
{
    if width > 0 {
        let w = (width - 1) as nat;
        lemma_low_digits_value(n / 10, w);
        assert(low_digits(n, width).drop_last() == low_digits(n / 10, w));
        assert forall|i: int| 0 <= i < low_digits(n, width).len() implies is_digit(
            #[trigger] low_digits(n, width)[i],
        ) by {
            if i < low_digits(n, width).len() - 1 {
                assert(low_digits(n, width)[i] == low_digits(n / 10, w)[i]);
            }
        }
        let p = pow10(w);
        assert(((n / 10) % p) * 10 + n % 10 == n % (10 * p)) by (nonlinear_arith)
            requires
                p > 0,
        {
            let q = n / 10;
            let a = q / p;
            assert(q == p * a + q % p);
            assert(n == 10 * q + n % 10);
            assert(n == (10 * p) * a + ((q % p) * 10 + n % 10));
            assert(0 <= (q % p) * 10 + n % 10 < 10 * p);
            vstd::arithmetic::div_mod::lemma_fundamental_div_mod_converse(
                n as int,
                (10 * p) as int,
                a as int,
                ((q % p) * 10 + n % 10) as int,
            );
        }
    }
}

/// Ten to the power of `k`.
pub open spec fn pow10(k: nat) -> nat
    decreases k,
{
    if k == 0 {
        1
    } else {
        10 * pow10((k - 1) as nat)
    }
}

// ---------------------------------------------------------------------------
// Splitting
// ---------------------------------------------------------------------------

proof fn lemma_find_first(s: Seq<char>, pat: Seq<char>, from: int)
    requires
        pat.len() > 0,
        0 <= from,
    ensures
        ({
            let at = find_from(s, pat, from);
            &&& forall|i: int| from <= i < at ==> !#[trigger] occurs_at(s, pat, i)
            &&& at < s.len() ==> from <= at && occurs_at(s, pat, at)
            &&& at >= s.len() ==> forall|i: int| from <= i ==> !#[trigger] occurs_at(s, pat, i)
        }),
    decreases s.len() - from,
{
    if from < s.len() && !occurs_at(s, pat, from) {
        lemma_find_first(s, pat, from + 1);
    }
}

/// A text is split where a pattern first occurs in it: the parts with the
/// pattern between them are the text, and the pattern does not occur earlier.
/// It is not split exactly if the pattern does not occur.
pub proof fn law_split_text(s: Seq<char>, pat: Seq<char>)
    requires
        pat.len() > 0,
    ensures
        match split_text(s, pat) {
            Some((a, b)) => s == a + pat + b && forall|i: int|
                0 <= i < a.len() ==> !#[trigger] occurs_at(s, pat, i),
            None => forall|i: int| 0 <= i ==> !#[trigger] occurs_at(s, pat, i),
        },
{
    lemma_find_first(s, pat, 0);
    let at = find_from(s, pat, 0);
    if at < s.len() {
        assert(s =~= s.take(at) + s.subrange(at, at + pat.len()) + s.skip(at + pat.len()));
    }
}

/// The same for a single character: the first part is all that stands before
/// the first occurrence.
pub proof fn law_split_at_char(s: Seq<char>, c: char)
    ensures
        match split_text(s, seq![c]) {
            Some((a, b)) => s == a + seq![c] + b && !a.contains(c),
            None => !s.contains(c),
        },
{
    let pat = seq![c];
    law_split_text(s, pat);
    assert forall|i: int| 0 <= i < s.len() && s[i] == c implies #[trigger] occurs_at(
        s,
        pat,
        i,
    ) by {
        assert(s.subrange(i, i + 1) =~= pat);
    }
    match split_text(s, pat) {
        Some((a, b)) => {
            if a.contains(c) {
                let i = a.index_of(c);
                assert(s[i] == c);
                assert(occurs_at(s, pat, i));
            }
        },
        None => {
            if s.contains(c) {
                let i = s.index_of(c);
                assert(occurs_at(s, pat, i));
            }
        },
    }
}

/// Pieces with a character between them.
pub open spec fn rejoined(pieces: Seq<Seq<char>>, c: char) -> Seq<char>
    decreases pieces.len(),
{
    if pieces.len() == 0 {
        seq![]
    } else if pieces.len() == 1 {
        pieces[0]
    } else {
        pieces[0] + seq![c] + rejoined(pieces.drop_first(), c)
    }
}

/// The pieces of a text between the occurrences of a character are the text
/// again when they are joined by it, and none of them holds it.
pub proof fn law_pieces_of(s: Seq<char>, c: char)
    ensures
        pieces_of(s, seq![c]).len() > 0,
        rejoined(pieces_of(s, seq![c]), c) == s,
        forall|i: int|
            0 <= i < pieces_of(s, seq![c]).len() ==> !(#[trigger] pieces_of(s, seq![c])[i]).contains(
                c,
            ),
    decreases s.len(),
{
    law_split_at_char(s, c);
    match split_text(s, seq![c]) {
        Some((a, b)) => {
            law_pieces_of(b, c);
            let rest = pieces_of(b, seq![c]);
            let all = pieces_of(s, seq![c]);
            assert(all == seq![a] + rest);
            assert(all.drop_first() =~= rest);
        },
        None => {},
    }
}

/// A text is trimmed of all occurrences of a character at its end, and of
/// nothing else.
pub proof fn law_trimmed_end(s: Seq<char>, c: char)
    ensures
        ({
            let t = trimmed_end(s, c);
            &&& t.is_prefix_of(s)
            &&& t.len() > 0 ==> t.last() != c
            &&& forall|i: int| t.len() <= i < s.len() ==> #[trigger] s[i] == c
        }),
    decreases s.len(),
{
    if s.len() > 0 && s.last() == c {
        law_trimmed_end(s.drop_last(), c);
        let t = trimmed_end(s.drop_last(), c);
        assert forall|i: int| t.len() <= i < s.len() implies #[trigger] s[i] == c by {
            if i < s.len() - 1 {
                assert(s.drop_last()[i] == s[i]);
            }
        }
        assert(t =~= s.take(t.len() as int));
    } else {
        assert(s =~= s.take(s.len() as int));
    }
}

/// A text ends with a suffix exactly if it is something with the suffix behind
/// it, and that is what is left; it begins with a prefix exactly if it is the
/// prefix with something behind it.
pub proof fn law_prefixes_and_suffixes(s: Seq<char>, rest: Seq<char>, part: Seq<char>)
    ensures
        without_suffix(s, part) == Some(rest) <==> s == rest + part,
        has_prefix(part + rest, part),
        has_prefix(s, part) ==> s == part + s.skip(part.len() as int),
{
    if s == rest + part {
        assert(s.skip(s.len() - part.len()) =~= part);
        assert(s.take(s.len() - part.len()) =~= rest);
    }
    if without_suffix(s, part) == Some(rest) {
        assert(s =~= rest + part);
    }
    assert((part + rest).take(part.len() as int) =~= part);
    if has_prefix(s, part) {
        assert(s =~= part + s.skip(part.len() as int));
    }
}

} // verus!
