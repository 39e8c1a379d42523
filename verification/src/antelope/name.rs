//! Account, action and table names.

use crate::antelope::wire::{Fault, HasFault};
use crate::antelope::AntelopeError;
use crate::text;
use std::str::FromStr;
use vstd::prelude::*;

verus! {

/// An Antelope account/action/table name: up to 13 chars from
/// `.12345abcdefghijklmnopqrstuvwxyz`, base-32 packed into a u64.
#[derive(Debug, Clone, Copy, PartialEq, Eq, PartialOrd, Ord, Hash, Default, Structural)]
pub struct Name(pub u64);

impl DeepView for Name {
    type V = Name;

    open spec fn deep_view(&self) -> Name {
        *self
    }
}

/// The character of a five-bit symbol.
pub open spec fn symbol_char(symbol: nat) -> char {
    if symbol == 0 {
        '.'
    } else if symbol < 6 {
        (48 + symbol) as char
    } else {
        (91 + symbol) as char
    }
}

pub open spec fn is_name_char(c: char) -> bool {
    c == '.' || '1' <= c <= '5' || 'a' <= c <= 'z'
}

/// The five-bit symbol of a character.
pub open spec fn char_symbol(c: char) -> nat {
    if 'a' <= c <= 'z' {
        (c as nat - 91) as nat
    } else if '1' <= c <= '5' {
        (c as nat - 48) as nat
    } else {
        0
    }
}

/// The characters of the lowest `k` five-bit symbols of a number, the highest
/// first.
pub open spec fn symbols_text(n: nat, k: nat) -> Seq<char>
    decreases k,
{
    if k == 0 {
        seq![]
    } else {
        symbols_text(n / 32, (k - 1) as nat).push(symbol_char(n % 32))
    }
}

/// All 13 characters of a name: twelve symbols of five bits and one of four.
pub open spec fn full_text(value: u64) -> Seq<char> {
    symbols_text((value / 16) as nat, 12).push(symbol_char((value % 16) as nat))
}

/// A name as text: its 13 characters without the dots at the end.
pub open spec fn name_text(value: u64) -> Seq<char> {
    text::trimmed_end(full_text(value), '.')
}

/// Whether a text is a name: at most 13 characters of the alphabet, of which
/// the 13th has only four bits of room.
pub open spec fn is_name_text(s: Seq<char>) -> bool {
    &&& s.len() <= 13
    &&& forall|i: int| 0 <= i < s.len() ==> is_name_char(#[trigger] s[i])
    &&& s.len() == 13 ==> char_symbol(s[12]) < 16
}

/// The first `k` symbols of a text as one number, where a missing symbol
/// counts as zero.
pub open spec fn packed(s: Seq<char>, k: nat) -> nat
    decreases k,
{
    if k == 0 {
        0
    } else {
        packed(s, (k - 1) as nat) * 32 + symbol_at(s, k - 1)
    }
}

pub open spec fn symbol_at(s: Seq<char>, i: int) -> nat {
    if 0 <= i < s.len() {
        char_symbol(s[i])
    } else {
        0
    }
}

/// The number that the characters of a name are packed into.
pub open spec fn name_value(s: Seq<char>) -> nat {
    packed(s, 12) * 16 + symbol_at(s, 12)
}

fn char_to_symbol(c: char) -> (r: Option<u64>)
    ensures
        r is Some <==> is_name_char(c),
        r matches Some(v) ==> v == char_symbol(c) && v < 32,
{
    if 'a' <= c && c <= 'z' {
        Some(c as u64 - 91)
    } else if '1' <= c && c <= '5' {
        Some(c as u64 - 48)
    } else if c == '.' {
        Some(0)
    } else {
        None
    }
}

fn symbol_to_char(symbol: u8) -> (c: char)
    requires
        symbol < 32,
    ensures
        c == symbol_char(symbol as nat),
{
    if symbol == 0 {
        '.'
    } else if symbol < 6 {
        (48 + symbol) as char
    } else {
        (91 + symbol) as char
    }
}

fn push_symbols(out: &mut String, n: u64, k: u8)
    ensures
        final(out)@ == old(out)@ + symbols_text(n as nat, k as nat),
    decreases k,
{
    if k > 0 {
        push_symbols(out, n / 32, k - 1);
        let c: char = symbol_to_char((n % 32) as u8);
        out.push(c);
    }
    assert(out@ == old(out)@ + symbols_text(n as nat, k as nat));
}

impl Name {
    pub fn new(value: u64) -> (r: Self)
        ensures
            r.0 == value,
    {
        Name(value)
    }

    pub fn as_u64(&self) -> (r: u64)
        ensures
            r == self.0,
    {
        self.0
    }

    pub fn is_empty(&self) -> (r: bool)
        ensures
            r == (self.0 == 0),
    {
        self.0 == 0
    }

    pub fn to_string_lossy(value: u64) -> (r: String)
        ensures
            r@ == name_text(value),
    {
        let mut full = String::new();
        push_symbols(&mut full, value / 16, 12);
        let c: char = symbol_to_char((value % 16) as u8);
        full.push(c);
        assert(full@ == full_text(value));
        text::trim_end(full.as_str(), '.')
    }

    /// The name as text.
    pub fn to_string(&self) -> (r: String)
        ensures
            r@ == name_text(self.0),
    {
        Name::to_string_lossy(self.0)
    }

    /// Reads a text as a name.
    pub fn from_str(s: &str) -> (r: Result<Name, AntelopeError>)
        ensures
            match r {
                Ok(n) => is_name_text(s@) && n.0 == name_value(s@),
                Err(e) => !is_name_text(s@) && e.fault() == Fault::BadName(s@),
            },
    {
        let cs = text::chars(s);
        if cs.len() > 13 {
            return Err(AntelopeError::BadName(s.to_owned()));
        }
        let mut value: u64 = 0;
        let mut i: usize = 0;
        while i < 12
            invariant
                i <= 12,
                cs@ == s@,
                cs@.len() <= 13,
                forall|j: int| 0 <= j < i && j < s@.len() ==> is_name_char(#[trigger] s@[j]),
                value == packed(s@, i as nat),
                value < pow32(i as nat),
            decreases 12 - i,
        {
            let symbol: u64 = if i < cs.len() {
                match char_to_symbol(cs[i]) {
                    Some(v) => v,
                    None => {
                        return Err(AntelopeError::BadName(s.to_owned()));
                    },
                }
            } else {
                0
            };
            proof {
                lemma_pow32((i + 1) as nat);
            }
            value = value * 32 + symbol;
            i = i + 1;
        }
        proof {
            lemma_pow32(12);
        }
        // The 13th character only has 4 bits of room.
        let last: u64 = if cs.len() == 13 {
            match char_to_symbol(cs[12]) {
                Some(v) => v,
                None => {
                    return Err(AntelopeError::BadName(s.to_owned()));
                },
            }
        } else {
            0
        };
        if last > 15 {
            return Err(AntelopeError::BadName(s.to_owned()));
        }
        Ok(Name(value * 16 + last))
    }
}

impl FromStr for Name {
    type Err = AntelopeError;

    fn from_str(s: &str) -> (r: Result<Self, AntelopeError>)
        ensures
            match r {
                Ok(n) => is_name_text(s@) && n.0 == name_value(s@),
                Err(e) => !is_name_text(s@) && e.fault() == Fault::BadName(s@),
            },
    {
        Name::from_str(s)
    }
}

// ---------------------------------------------------------------------------
// Names and their text
// ---------------------------------------------------------------------------

/// 32 to the power of `k`.
spec fn pow32(k: nat) -> nat
    decreases k,
{
    if k == 0 {
        1
    } else {
        32 * pow32((k - 1) as nat)
    }
}

proof fn lemma_pow32(k: nat)
    requires
        k <= 12,
    ensures
        pow32(k) <= 0x1000_0000_0000_0000,
        pow32(12) == 0x1000_0000_0000_0000,
{
    reveal_with_fuel(pow32, 13);
}

proof fn lemma_symbols_text(n: nat, k: nat)
    ensures
        symbols_text(n, k).len() == k,
        forall|i: int| 0 <= i < k ==> is_name_char(#[trigger] symbols_text(n, k)[i]),
    decreases k,
{
    if k > 0 {
        lemma_symbols_text(n / 32, (k - 1) as nat);
        let before = symbols_text(n / 32, (k - 1) as nat);
        assert forall|i: int| 0 <= i < k implies is_name_char(
            #[trigger] symbols_text(n, k)[i],
        ) by {
            if i < k - 1 {
                assert(symbols_text(n, k)[i] == before[i]);
            }
        }
    }
}

proof fn lemma_packed_symbols(s: Seq<char>, n: nat, k: nat)
    requires
        n < pow32(k),
        s.len() >= k,
        s.take(k as int) == symbols_text(n, k),
    ensures
        packed(s, k) == n,
    decreases k,
{
    if k > 0 {
        let j = (k - 1) as nat;
        lemma_symbols_text(n / 32, j);
        assert(s.take(j as int) == s.take(k as int).drop_last());
        assert(s.take(k as int).drop_last() == symbols_text(n / 32, j));
        lemma_packed_symbols(s, n / 32, j);
        assert(s[k - 1] == s.take(k as int).last());
    }
}

proof fn lemma_same_symbols(s: Seq<char>, t: Seq<char>, k: nat)
    requires
        forall|i: int| 0 <= i < k ==> symbol_at(s, i) == symbol_at(t, i),
    ensures
        packed(s, k) == packed(t, k),
    decreases k,
{
    if k > 0 {
        lemma_same_symbols(s, t, (k - 1) as nat);
        assert(symbol_at(s, k - 1) == symbol_at(t, k - 1));
    }
}

proof fn lemma_trimmed(s: Seq<char>, c: char)
    ensures
        text::trimmed_end(s, c).len() <= s.len(),
        text::trimmed_end(s, c) == s.take(text::trimmed_end(s, c).len() as int),
        forall|i: int| text::trimmed_end(s, c).len() <= i < s.len() ==> s[i] == c,
    decreases s.len(),
{
    if s.len() > 0 && s.last() == c {
        lemma_trimmed(s.drop_last(), c);
        let t = text::trimmed_end(s, c);
        assert(s.drop_last().take(t.len() as int) == s.take(t.len() as int));
        assert forall|i: int| t.len() <= i < s.len() implies s[i] == c by {
            if i < s.len() - 1 {
                assert(s.drop_last()[i] == s[i]);
            }
        }
    } else {
        assert(s.take(s.len() as int) == s);
    }
}

proof fn lemma_trimmed_last(s: Seq<char>, c: char)
    ensures
        text::trimmed_end(s, c).len() > 0 ==> text::trimmed_end(s, c).last() != c,
    decreases s.len(),
{
    if s.len() > 0 && s.last() == c {
        lemma_trimmed_last(s.drop_last(), c);
    }
}

proof fn lemma_trimmed_padded(s: Seq<char>, t: Seq<char>, c: char)
    requires
        s.len() <= t.len(),
        t.take(s.len() as int) == s,
        forall|i: int| s.len() <= i < t.len() ==> t[i] == c,
    ensures
        text::trimmed_end(t, c) == text::trimmed_end(s, c),
    decreases t.len(),
{
    if s.len() < t.len() {
        assert(t.drop_last().take(s.len() as int) == t.take(s.len() as int));
        assert forall|i: int| s.len() <= i < t.drop_last().len() implies t.drop_last()[i] == c by {
            assert(t.drop_last()[i] == t[i]);
        }
        assert(t.last() == c);
        lemma_trimmed_padded(s, t.drop_last(), c);
    } else {
        assert(t.take(s.len() as int) == t);
    }
}

/// Every name is given back by its text: the text is accepted, has no dot at
/// its end, and is read as the same number.
pub proof fn law_name_reads_back(value: u64)
    ensures
        is_name_text(name_text(value)),
        name_text(value).len() > 0 ==> name_text(value).last() != '.',
        name_value(name_text(value)) == value,
{
    lemma_trimmed_last(full_text(value), '.');
    let full = full_text(value);
    let t = name_text(value);
    let head = symbols_text((value / 16) as nat, 12);
    lemma_symbols_text((value / 16) as nat, 12);
    lemma_trimmed(full, '.');
    assert forall|i: int| 0 <= i < t.len() implies is_name_char(#[trigger] t[i]) by {
        assert(t[i] == full[i]);
        if i < 12 {
            assert(full[i] == head[i]);
        }
    }
    assert forall|i: int| 0 <= i < 13 implies symbol_at(t, i) == symbol_at(full, i) by {
        if i < t.len() {
            assert(t[i] == full[i]);
        }
    }
    lemma_same_symbols(t, full, 12);
    assert(full.take(12) == head);
    lemma_pow32(12);
    lemma_packed_symbols(full, (value / 16) as nat, 12);
    assert(symbol_at(t, 12) == symbol_at(full, 12));
}

proof fn lemma_symbols_of_packed(s: Seq<char>, k: nat)
    requires
        forall|i: int| 0 <= i < s.len() ==> is_name_char(#[trigger] s[i]),
    ensures
        symbols_text(packed(s, k), k).len() == k,
        forall|i: int|
            0 <= i < k ==> #[trigger] symbols_text(packed(s, k), k)[i] == if i < s.len() {
                s[i]
            } else {
                '.'
            },
    decreases k,
{
    if k > 0 {
        let j = (k - 1) as nat;
        lemma_symbols_of_packed(s, j);
        let d = symbol_at(s, k - 1);
        if k - 1 < s.len() {
            assert(is_name_char(s[k - 1]));
        }
        assert(d < 32);
        assert((packed(s, j) * 32 + d) / 32 == packed(s, j));
        assert((packed(s, j) * 32 + d) % 32 == d);
        let before = symbols_text(packed(s, j), j);
        assert(symbols_text(packed(s, k), k) == before.push(symbol_char(d)));
        assert forall|i: int| 0 <= i < k implies #[trigger] symbols_text(packed(s, k), k)[i]
            == if i < s.len() {
            s[i]
        } else {
            '.'
        } by {
            if i < k - 1 {
                assert(symbols_text(packed(s, k), k)[i] == before[i]);
            }
        }
    }
}

proof fn lemma_packed_bound(s: Seq<char>, k: nat)
    requires
        forall|i: int| 0 <= i < s.len() ==> is_name_char(#[trigger] s[i]),
    ensures
        packed(s, k) < pow32(k),
    decreases k,
{
    if k > 0 {
        lemma_packed_bound(s, (k - 1) as nat);
        if k - 1 < s.len() {
            assert(is_name_char(s[k - 1]));
        }
        assert(symbol_at(s, k - 1) < 32);
    }
}

/// Every text that is a name fits in 64 bits, and is given back by the name's
/// text, but for dots at its end.
pub proof fn law_name_prints_back(s: Seq<char>)
    requires
        is_name_text(s),
    ensures
        name_value(s) <= u64::MAX,
        name_text(name_value(s) as u64) == text::trimmed_end(s, '.'),
{
    lemma_packed_bound(s, 12);
    lemma_pow32(12);
    let last = symbol_at(s, 12);
    assert(last < 16);
    let v = name_value(s) as u64;
    assert((v / 16) as nat == packed(s, 12));
    assert((v % 16) as nat == last);
    lemma_symbols_of_packed(s, 12);
    let full = full_text(v);
    let head = symbols_text(packed(s, 12), 12);
    assert(full.len() == 13);
    assert forall|i: int| 0 <= i < 13 implies full[i] == if i < s.len() {
        s[i]
    } else {
        '.'
    } by {
        if i < 12 {
            assert(full[i] == head[i]);
        } else if i < s.len() {
            assert(is_name_char(s[12]));
        }
    }
    assert(full.take(s.len() as int) == s);
    lemma_trimmed_padded(s, full, '.');
}

// ---------------------------------------------------------------------------
// The order of names
// ---------------------------------------------------------------------------

/// Whether two texts first differ at a place, and the first has the lower
/// character there or ends there.
pub open spec fn lower_at(s: Seq<char>, t: Seq<char>, k: int) -> bool {
    &&& 0 <= k <= s.len()
    &&& k < t.len()
    &&& forall|i: int| 0 <= i < k ==> s[i] == t[i]
    &&& k < s.len() ==> s[k] < t[k]
}

/// Whether a text comes before another in the order of their characters.
pub open spec fn precedes(s: Seq<char>, t: Seq<char>) -> bool {
    exists|k: int| lower_at(s, t, k)
}

proof fn lemma_precedes_one_way(s: Seq<char>, t: Seq<char>)
    requires
        precedes(s, t),
    ensures
        s != t,
        !precedes(t, s),
{
    let k = choose|k: int| lower_at(s, t, k);
    if precedes(t, s) {
        let j = choose|j: int| lower_at(t, s, j);
        if k < j {
            assert(t[k] == s[k]);
        } else if j < k {
            assert(s[j] == t[j]);
        }
    }
}

proof fn lemma_symbols_order(n: nat, m: nat, k: nat) -> (j: int)
    requires
        n < m < pow32(k),
    ensures
        0 <= j < k,
        symbols_text(n, k).len() == k,
        symbols_text(m, k).len() == k,
        forall|i: int| 0 <= i < j ==> symbols_text(n, k)[i] == symbols_text(m, k)[i],
        symbols_text(n, k)[j] < symbols_text(m, k)[j],
    decreases k,
{
    let l = (k - 1) as nat;
    lemma_symbols_text(n, k);
    lemma_symbols_text(m, k);
    lemma_symbols_text(n / 32, l);
    lemma_symbols_text(m / 32, l);
    if n / 32 < m / 32 {
        lemma_symbols_order(n / 32, m / 32, l)
    } else {
        k - 1
    }
}

proof fn lemma_full_order(v: u64, w: u64) -> (j: int)
    requires
        v < w,
    ensures
        0 <= j < 13,
        full_text(v).len() == 13,
        full_text(w).len() == 13,
        forall|i: int| 0 <= i < j ==> full_text(v)[i] == full_text(w)[i],
        full_text(v)[j] < full_text(w)[j],
{
    lemma_pow32(12);
    lemma_symbols_text((v / 16) as nat, 12);
    lemma_symbols_text((w / 16) as nat, 12);
    if v / 16 < w / 16 {
        lemma_symbols_order((v / 16) as nat, (w / 16) as nat, 12)
    } else {
        12
    }
}

proof fn lemma_lower_name(v: u64, w: u64)
    requires
        v < w,
    ensures
        precedes(name_text(v), name_text(w)),
{
    let j = lemma_full_order(v, w);
    let (s, t) = (name_text(v), name_text(w));
    let (a, b) = (full_text(v), full_text(w));
    lemma_trimmed(a, '.');
    lemma_trimmed(b, '.');
    law_name_reads_back(v);
    // The lower character is at least a dot, so the higher one is none.
    assert(a[j] >= '.') by {
        lemma_symbols_text((v / 16) as nat, 12);
        let head = symbols_text((v / 16) as nat, 12);
        if j < 12 {
            assert(a[j] == head[j]);
        }
    }
    assert(j < t.len());
    let k = if j < s.len() {
        j
    } else {
        s.len() as int
    };
    assert forall|i: int| 0 <= i < k implies s[i] == t[i] by {
        assert(s[i] == a[i] && t[i] == b[i]);
    }
    if k < s.len() {
        assert(s[k] == a[k] && t[k] == b[k]);
    }
    assert(lower_at(s, t, k));
}

/// The order of names as numbers is the order of their texts.
pub proof fn law_names_order_as_texts(v: u64, w: u64)
    ensures
        v < w <==> precedes(name_text(v), name_text(w)),
{
    if v < w {
        lemma_lower_name(v, w);
    } else if precedes(name_text(v), name_text(w)) {
        lemma_precedes_one_way(name_text(v), name_text(w));
        if w < v {
            lemma_lower_name(w, v);
        }
    }
}

} // verus!
