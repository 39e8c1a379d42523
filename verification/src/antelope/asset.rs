//! Token symbols and amounts.

use crate::antelope::wire;
use crate::antelope::wire::{Fault, HasFault};
use crate::antelope::AntelopeError;
use crate::text;
use std::str::FromStr;
use vstd::prelude::*;
use vstd::string::*;

verus! {

/// A 7-char-max uppercase token code, packed into a u64.
#[derive(Debug, Clone, Copy, PartialEq, Eq, Hash, Structural)]
pub struct SymbolCode(pub u64);

/// Symbol = precision (low byte) + symbol code (upper 7 bytes).
#[derive(Debug, Clone, Copy, PartialEq, Eq, Hash, Structural)]
pub struct Symbol(pub u64);

/// A token amount: i64 raw units + symbol.
#[derive(Debug, Clone, Copy, PartialEq, Eq, Structural)]
pub struct Asset {
    pub amount: i64,
    pub symbol: Symbol,
}

/// The text of a symbol code: its bytes from the lowest on, up to a zero byte.
pub open spec fn code_text(v: nat) -> Seq<char>
    decreases v,
{
    if v % 256 == 0 {
        seq![]
    } else {
        seq![(v % 256) as char] + code_text(v / 256)
    }
}

/// Whether every byte that is part of the text of a code is ASCII.
pub open spec fn is_ascii_code(v: nat) -> bool
    decreases v,
{
    v % 256 == 0 || (v % 256 < 128 && is_ascii_code(v / 256))
}

pub open spec fn is_upper(c: char) -> bool {
    'A' <= c <= 'Z'
}

/// Whether a text is a symbol code: one to seven capital letters.
pub open spec fn is_code_text(s: Seq<char>) -> bool {
    &&& 1 <= s.len() <= 7
    &&& forall|i: int| 0 <= i < s.len() ==> is_upper(#[trigger] s[i])
}

/// The number whose bytes, from the lowest on, are the given characters.
pub open spec fn code_value(s: Seq<char>) -> nat
    decreases s.len(),
{
    if s.len() == 0 {
        0
    } else {
        s[0] as nat + 256 * code_value(s.drop_first())
    }
}

/// Whether the bytes of a number, from the lowest on, are capital letters and
/// then zeros.
pub open spec fn code_letters(v: nat) -> bool
    decreases v,
{
    v == 0 || (65 <= v % 256 <= 90 && code_letters(v / 256))
}

impl SymbolCode {
    pub fn from_u64(v: u64) -> (r: Self)
        ensures
            r.0 == v,
    {
        SymbolCode(v)
    }

    /// The code as text.
    pub fn to_string(&self) -> (r: String)
        requires
            is_ascii_code(self.0 as nat),
        ensures
            r@ == code_text(self.0 as nat),
    {
        let mut out = String::new();
        let mut v: u64 = self.0;
        while v % 256 != 0
            invariant
                is_ascii_code(v as nat),
                code_text(self.0 as nat) == out@ + code_text(v as nat),
            decreases v,
        {
            let ghost before = out@;
            let c: u8 = (v % 256) as u8;
            out.push(c as char);
            assert(before + (seq![c as char] + code_text((v / 256) as nat)) == out@ + code_text(
                (v / 256) as nat,
            ));
            v = v / 256;
        }
        assert(code_text(self.0 as nat) == out@);
        out
    }

    /// Whether every byte of the text is ASCII.
    pub fn is_ascii(&self) -> (r: bool)
        ensures
            r == is_ascii_code(self.0 as nat),
    {
        let mut v: u64 = self.0;
        while v % 256 != 0
            invariant
                is_ascii_code(self.0 as nat) == is_ascii_code(v as nat),
            decreases v,
        {
            if v % 256 >= 128 {
                return false;
            }
            v = v / 256;
        }
        true
    }

    /// Reads a text as a symbol code.
    pub fn from_str(s: &str) -> (r: Result<SymbolCode, AntelopeError>)
        ensures
            match r {
                Ok(c) => is_code_text(s@) && c.0 == code_value(s@),
                Err(e) => !is_code_text(s@) && e.fault() == Fault::BadSymbol(s@),
            },
    {
        let cs = text::chars(s);
        if cs.len() == 0 || cs.len() > 7 {
            return Err(AntelopeError::BadSymbol(s.to_owned()));
        }
        let mut v: u64 = 0;
        let mut i: usize = cs.len();
        while i > 0
            invariant
                i <= cs@.len() <= 7,
                cs@ == s@,
                forall|j: int| i <= j < s@.len() ==> is_upper(#[trigger] s@[j]),
                v == code_value(s@.skip(i as int)),
                v < wire::pow256((cs@.len() - i) as nat),
            decreases i,
        {
            i = i - 1;
            let c: char = cs[i];
            if c < 'A' || c > 'Z' {
                return Err(AntelopeError::BadSymbol(s.to_owned()));
            }
            proof {
                lemma_pow256((cs@.len() - i) as nat);
                assert(s@.skip(i as int).drop_first() == s@.skip(i + 1));
            }
            v = v * 256 + c as u64;
        }
        assert(s@.skip(0) == s@);
        Ok(SymbolCode(v))
    }
}

impl FromStr for SymbolCode {
    type Err = AntelopeError;

    fn from_str(s: &str) -> (r: Result<Self, AntelopeError>)
        ensures
            match r {
                Ok(c) => is_code_text(s@) && c.0 == code_value(s@),
                Err(e) => !is_code_text(s@) && e.fault() == Fault::BadSymbol(s@),
            },
    {
        SymbolCode::from_str(s)
    }
}

/// A symbol as text: precision, comma, code.
pub open spec fn symbol_text(v: u64) -> Seq<char> {
    text::decimal((v % 256) as nat) + seq![','] + code_text((v / 256) as nat)
}

/// What is read from the text of a symbol.
pub open spec fn parsed_symbol(s: Seq<char>) -> Result<nat, Fault> {
    match text::split_text(s, seq![',']) {
        None => Err(Fault::BadSymbol(s)),
        Some((precision, code)) => match text::parsed_nat(precision, 255) {
            None => Err(Fault::BadSymbol(s)),
            Some(p) => if is_code_text(code) {
                Ok(code_value(code) * 256 + p)
            } else {
                Err(Fault::BadSymbol(code))
            },
        },
    }
}

impl Symbol {
    pub fn from_u64(v: u64) -> (r: Self)
        ensures
            r.0 == v,
    {
        Symbol(v)
    }

    pub fn precision(&self) -> (r: u8)
        ensures
            r == self.0 % 256,
    {
        (self.0 % 256) as u8
    }

    pub fn code(&self) -> (r: SymbolCode)
        ensures
            r.0 == self.0 / 256,
    {
        SymbolCode(self.0 / 256)
    }

    /// The symbol as text.
    pub fn to_string(&self) -> (r: String)
        requires
            is_ascii_code((self.0 / 256) as nat),
        ensures
            r@ == symbol_text(self.0),
    {
        let mut out = text::decimal_text(self.precision() as u128);
        out.push(',');
        out.append(self.code().to_string().as_str());
        assert(out@ == symbol_text(self.0));
        out
    }

    /// Reads a text as a symbol.
    pub fn from_str(s: &str) -> (r: Result<Symbol, AntelopeError>)
        ensures
            match r {
                Ok(v) => parsed_symbol(s@) == Ok::<nat, Fault>(v.0 as nat),
                Err(e) => parsed_symbol(s@) == Err::<nat, Fault>(e.fault()),
            },
    {
        proof {
            reveal_strlit(",");
            assert(","@ == seq![',']);
        }
        match text::split_once(s, ",") {
            None => Err(AntelopeError::BadSymbol(s.to_owned())),
            Some(p) => match text::parse_nat(p.0.as_str(), 255) {
                None => Err(AntelopeError::BadSymbol(s.to_owned())),
                Some(precision) => {
                    let code: SymbolCode = SymbolCode::from_str(p.1.as_str())?;
                    proof {
                        lemma_code_bound(p.1@);
                    }
                    Ok(Symbol(code.0 * 256 + precision))
                },
            },
        }
    }
}

impl FromStr for Symbol {
    type Err = AntelopeError;

    fn from_str(s: &str) -> (r: Result<Self, AntelopeError>)
        ensures
            match r {
                Ok(v) => parsed_symbol(s@) == Ok::<nat, Fault>(v.0 as nat),
                Err(e) => parsed_symbol(s@) == Err::<nat, Fault>(e.fault()),
            },
    {
        Symbol::from_str(s)
    }
}

/// Twenty digits do not fit in 64 bits.
pub const MAX_PRECISION: u8 = 19;

/// A token amount as text: sign, digits with as many of them behind the point
/// as the precision says, code.
pub open spec fn asset_text(amount: int, symbol: u64) -> Seq<char> {
    let precision = (symbol % 256) as nat;
    let magnitude = if amount < 0 {
        (-amount) as nat
    } else {
        amount as nat
    };
    let sign = if amount < 0 {
        seq!['-']
    } else {
        seq![]
    };
    let point = if precision == 0 {
        seq![]
    } else {
        seq!['.'] + text::low_digits(magnitude % text::pow10(precision), precision)
    };
    sign + text::decimal(magnitude / text::pow10(precision)) + point + seq![' '] + code_text(
        (symbol / 256) as nat,
    )
}

/// Whether a symbol can stand in the text of an amount.
pub open spec fn is_printable(symbol: u64) -> bool {
    symbol % 256 <= MAX_PRECISION && is_ascii_code((symbol / 256) as nat)
}

impl Asset {
    pub fn new(amount: i64, symbol: Symbol) -> (r: Self)
        ensures
            r.amount == amount,
            r.symbol == symbol,
    {
        Asset { amount, symbol }
    }

    /// The amount as text.
    pub fn to_string(&self) -> (r: String)
        requires
            is_printable(self.symbol.0),
        ensures
            r@ == asset_text(self.amount as int, self.symbol.0),
    {
        let precision: u8 = self.symbol.precision();
        let mut out = String::new();
        let magnitude: u64 = if self.amount < 0 {
            out.push('-');
            ((-(self.amount + 1)) as u64) + 1
        } else {
            self.amount as u64
        };
        let divisor: u64 = power_of_ten(precision);
        text::push_decimal(&mut out, (magnitude / divisor) as u128);
        if precision != 0 {
            out.push('.');
            text::push_low_digits(&mut out, magnitude % divisor, precision);
        }
        out.push(' ');
        out.append(self.symbol.code().to_string().as_str());
        assert(out@ == asset_text(self.amount as int, self.symbol.0));
        out
    }
}

fn power_of_ten(k: u8) -> (r: u64)
    requires
        k <= MAX_PRECISION,
    ensures
        r == text::pow10(k as nat),
        r > 0,
{
    let mut r: u64 = 1;
    let mut i: u8 = 0;
    while i < k
        invariant
            i <= k <= MAX_PRECISION,
            r == text::pow10(i as nat),
            r > 0,
        decreases k - i,
    {
        proof {
            lemma_pow10(i as nat);
        }
        r = r * 10;
        i = i + 1;
    }
    r
}

/// Splits an amount into what stands before and behind the point.
pub open spec fn amount_parts(s: Seq<char>) -> (Seq<char>, Seq<char>) {
    match text::split_text(s, seq!['.']) {
        Some(p) => p,
        None => (s, Seq::empty()),
    }
}

/// The absolute value of a 64-bit number; the least one is its own.
pub open spec fn magnitude_of(i: int) -> int {
    if i == i64::MIN || i >= 0 {
        i
    } else {
        -i
    }
}

/// The amount that is written with a whole number before the point and a
/// number behind it: none if it does not fit.
pub open spec fn joined_amount(negative: bool, whole: int, frac: int, precision: nat) -> Option<
    int,
> {
    let scaled = magnitude_of(whole) * text::pow10(precision);
    let sum = scaled + frac;
    if precision > 18 || !(i64::MIN <= scaled <= i64::MAX) || !(i64::MIN <= sum <= i64::MAX) {
        None
    } else if negative && sum != i64::MIN {
        Some(-sum)
    } else {
        Some(sum)
    }
}

/// The amount and the symbol that a text such as `1.0000 EOS` stands for: two
/// parts around a blank, of which the second is a code and the first a number
/// with as many digits behind the point as the precision.
pub open spec fn parsed_asset(s: Seq<char>) -> Option<(int, nat)> {
    match text::split_text(s, seq![' ']) {
        None => None,
        Some((amount, code)) => {
            let (whole, frac) = amount_parts(amount);
            let precision = frac.len() % 256;
            let negative = text::has_prefix(whole, seq!['-']);
            let f = if frac.len() == 0 {
                Some(0int)
            } else {
                text::parsed_i64(frac)
            };
            match (text::parsed_i64(whole), f) {
                (Some(w), Some(f)) => match joined_amount(negative, w, f, precision) {
                    Some(a) => if is_code_text(code) {
                        Some((a, code_value(code) * 256 + precision))
                    } else {
                        None
                    },
                    None => None,
                },
                _ => None,
            }
        },
    }
}

/// Parse an asset string like `1.0000 EOS`.
pub fn parse_asset(s: &str) -> (r: Option<Asset>)
    ensures
        match r {
            Some(a) => parsed_asset(s@) == Some((a.amount as int, a.symbol.0 as nat)),
            None => parsed_asset(s@) is None,
        },
{
    proof {
        reveal_strlit(" ");
        reveal_strlit(".");
        reveal_strlit("-");
        assert(" "@ == seq![' ']);
        assert("."@ == seq!['.']);
        assert("-"@ == seq!['-']);
    }
    let (amount, code) = match text::split_once(s, " ") {
        Some(p) => p,
        None => return None,
    };
    let symbol_code: SymbolCode = match SymbolCode::from_str(code.as_str()) {
        Ok(c) => c,
        Err(_) => return None,
    };
    let (whole, frac) = match text::split_once(amount.as_str(), ".") {
        Some(p) => p,
        None => (amount, String::new()),
    };
    assert(amount_parts(amount@) == (whole@, frac@));
    let digits: usize = frac.as_str().unicode_len();
    let precision: u8 = (digits % 256) as u8;
    let negative: bool = text::starts_with(whole.as_str(), "-");
    let whole_value: i64 = match text::parse_i64(whole.as_str()) {
        Some(v) => v,
        None => return None,
    };
    let frac_value: i64 = if digits == 0 {
        0
    } else {
        match text::parse_i64(frac.as_str()) {
            Some(v) => v,
            None => return None,
        }
    };
    if precision > 18 {
        return None;
    }
    proof {
        lemma_pow10(precision as nat);
        lemma_code_bound(code@);
    }
    let scale: i64 = power_of_ten(precision) as i64;
    let magnitude: i64 = if whole_value < 0 && whole_value != i64::MIN {
        -whole_value
    } else {
        whole_value
    };
    let scaled: i64 = match magnitude.checked_mul(scale) {
        Some(v) => v,
        None => return None,
    };
    let sum: i64 = match scaled.checked_add(frac_value) {
        Some(v) => v,
        None => return None,
    };
    let amount: i64 = if negative && sum != i64::MIN {
        -sum
    } else {
        sum
    };
    Some(Asset::new(amount, Symbol(symbol_code.0 * 256 + precision as u64)))
}

// ---------------------------------------------------------------------------
// Symbols, amounts and their text
// ---------------------------------------------------------------------------

proof fn lemma_pow256(k: nat)
    requires
        k <= 7,
    ensures
        wire::pow256(k) <= 0x100_0000_0000_0000,
{
    reveal_with_fuel(wire::pow256, 8);
}

proof fn lemma_pow10(k: nat)
    requires
        k <= 19,
    ensures
        0 < text::pow10(k) <= 10_000_000_000_000_000_000,
        k <= 18 ==> text::pow10(k) <= 1_000_000_000_000_000_000,
{
    reveal_with_fuel(text::pow10, 20);
}

proof fn lemma_code_value_bound(s: Seq<char>)
    requires
        forall|i: int| 0 <= i < s.len() ==> is_upper(#[trigger] s[i]),
    ensures
        code_value(s) < wire::pow256(s.len()),
        code_letters(code_value(s)),
        code_text(code_value(s)) == s,
        is_ascii_code(code_value(s)),
        s.len() > 0 ==> code_value(s) > 0,
    decreases s.len(),
{
    if s.len() > 0 {
        let t = s.drop_first();
        assert forall|i: int| 0 <= i < t.len() implies is_upper(#[trigger] t[i]) by {
            assert(t[i] == s[i + 1]);
        }
        lemma_code_value_bound(t);
        assert(is_upper(s[0]));
        let v = code_value(s);
        assert(v % 256 == s[0] as nat);
        assert(v / 256 == code_value(t));
        assert(code_text(v) == seq![s[0]] + t);
        assert(seq![s[0]] + t == s);
    } else {
        assert(code_text(0) == s);
    }
}

proof fn lemma_code_bound(s: Seq<char>)
    requires
        is_code_text(s),
    ensures
        code_value(s) < 0x100_0000_0000_0000,
{
    lemma_code_value_bound(s);
    lemma_pow256(s.len());
}

/// The code of an amount that was read can be printed.
pub proof fn lemma_parsed_code(s: Seq<char>)
    ensures
        parsed_asset(s) matches Some((_, symbol)) ==> is_ascii_code(symbol / 256) && symbol
            < 0x1_0000_0000_0000_0000,
{
    match text::split_text(s, seq![' ']) {
        Some((amount, code)) => if is_code_text(code) {
            law_code_prints_back(code);
        },
        None => {},
    }
}

/// A symbol code fits in seven bytes, and is given back as text.
pub proof fn law_code_prints_back(s: Seq<char>)
    requires
        is_code_text(s),
    ensures
        0 < code_value(s) < 0x100_0000_0000_0000,
        code_letters(code_value(s)),
        is_ascii_code(code_value(s)),
        code_text(code_value(s)) == s,
{
    lemma_code_value_bound(s);
    lemma_code_bound(s);
}

proof fn lemma_code_text(v: nat, k: nat)
    requires
        code_letters(v),
        v < wire::pow256(k),
    ensures
        code_text(v).len() <= k,
        forall|i: int| 0 <= i < code_text(v).len() ==> is_upper(#[trigger] code_text(v)[i]),
        code_value(code_text(v)) == v,
        is_ascii_code(v),
        v > 0 ==> code_text(v).len() > 0,
    decreases k,
{
    if v > 0 {
        let j = (k - 1) as nat;
        lemma_code_text(v / 256, j);
        let t = code_text(v / 256);
        assert(code_text(v) == seq![(v % 256) as char] + t);
        assert(code_text(v).drop_first() == t);
        assert forall|i: int| 0 <= i < code_text(v).len() implies is_upper(
            #[trigger] code_text(v)[i],
        ) by {
            if i > 0 {
                assert(code_text(v)[i] == t[i - 1]);
            }
        }
    }
}

/// A code of one to seven capital letters is given back by its text.
pub proof fn law_code_reads_back(v: nat)
    requires
        0 < v < 0x100_0000_0000_0000,
        code_letters(v),
    ensures
        is_ascii_code(v),
        is_code_text(code_text(v)),
        code_value(code_text(v)) == v,
{
    assert(wire::pow256(7) == 0x100_0000_0000_0000) by {
        reveal_with_fuel(wire::pow256, 8);
    }
    lemma_code_text(v, 7);
}

/// Splitting at a character that does not occur before.
proof fn lemma_split_at(a: Seq<char>, c: char, b: Seq<char>)
    requires
        !a.contains(c),
    ensures
        text::split_text(a + seq![c] + b, seq![c]) == Some((a, b)),
{
    let s = a + seq![c] + b;
    lemma_find(a, c, b, 0);
    assert(s.take(a.len() as int) == a);
    assert(s.skip(a.len() as int + 1) == b);
}

proof fn lemma_find(a: Seq<char>, c: char, b: Seq<char>, from: int)
    requires
        !a.contains(c),
        0 <= from <= a.len(),
    ensures
        text::find_from(a + seq![c] + b, seq![c], from) == a.len(),
    decreases a.len() - from,
{
    let s = a + seq![c] + b;
    if from < a.len() {
        assert(a.contains(a[from]));
        assert(s[from] == a[from]);
        assert(s.subrange(from, from + 1)[0] != c);
        lemma_find(a, c, b, from + 1);
    } else {
        assert(s.subrange(from, from + 1) == seq![c]);
    }
}

proof fn lemma_find_none(s: Seq<char>, c: char, from: int)
    requires
        !s.contains(c),
        0 <= from <= s.len(),
    ensures
        text::find_from(s, seq![c], from) == s.len(),
    decreases s.len() - from,
{
    if from < s.len() {
        assert(s.contains(s[from]));
        assert(s.subrange(from, from + 1)[0] != c);
        lemma_find_none(s, c, from + 1);
    }
}

/// A symbol whose code is one to seven capital letters is given back by its
/// text.
pub proof fn law_symbol_reads_back(v: u64)
    requires
        v >= 256,
        code_letters((v / 256) as nat),
    ensures
        parsed_symbol(symbol_text(v)) == Ok::<nat, Fault>(v as nat),
{
    let p = (v % 256) as nat;
    let c = (v / 256) as nat;
    law_code_reads_back(c);
    text::law_numeral_reads_back(p, 255);
    text::lemma_decimal_value(p);
    let digits = text::decimal(p);
    assert(!digits.contains(',')) by {
        assert(forall|i: int| 0 <= i < digits.len() ==> text::is_digit(#[trigger] digits[i]));
    }
    lemma_split_at(digits, ',', code_text(c));
}

/// An amount whose symbol has a code of one to seven capital letters and at
/// most 18 decimals is given back by its text. (The least amount is read back
/// only without decimals: its magnitude does not fit.)
#[verifier::spinoff_prover]
pub proof fn law_asset_reads_back(amount: i64, symbol: u64)
    requires
        symbol >= 256,
        code_letters((symbol / 256) as nat),
        symbol % 256 <= 18,
        amount != i64::MIN || symbol % 256 == 0,
    ensures
        is_printable(symbol),
        parsed_asset(asset_text(amount as int, symbol)) == Some((amount as int, symbol as nat)),
{
    let p = (symbol % 256) as nat;
    let c = (symbol / 256) as nat;
    let m = if amount < 0 {
        (-amount) as nat
    } else {
        amount as nat
    };
    let d = text::pow10(p);
    lemma_pow10(p);
    law_code_reads_back(c);
    text::lemma_decimal_value(m / d);
    text::lemma_low_digits_value(m % d, p);
    assert(m == (m / d) * d + m % d) by (nonlinear_arith)
        requires
            d > 0,
    ;
    assert(m / d <= m) by (nonlinear_arith)
        requires
            d > 0,
    ;
    assert((m % d) % d == m % d) by (nonlinear_arith)
        requires
            d > 0,
    ;
    let sign = if amount < 0 {
        seq!['-']
    } else {
        seq![]
    };
    let whole = sign + text::decimal(m / d);
    let frac = text::low_digits(m % d, p);
    let point = if p == 0 {
        seq![]
    } else {
        seq!['.'] + frac
    };
    let head = whole + point;
    let digits = text::decimal(m / d);
    assert forall|i: int| 0 <= i < whole.len() implies whole[i] == '-' || text::is_digit(
        #[trigger] whole[i],
    ) by {
        if i >= sign.len() {
            assert(whole[i] == digits[i - sign.len()]);
        }
    }
    assert(text::is_digit(digits[0]));
    assert(!whole.contains('.'));
    assert(!head.contains(' ')) by {
        assert forall|i: int| 0 <= i < head.len() implies head[i] != ' ' by {
            if i >= whole.len() + 1 {
                assert(head[i] == frac[i - whole.len() - 1]);
                assert(text::is_digit(frac[i - whole.len() - 1]));
            } else if i < whole.len() {
                assert(head[i] == whole[i]);
            }
        }
    }
    lemma_split_at(head, ' ', code_text(c));
    assert(asset_text(amount as int, symbol) == head + seq![' '] + code_text(c));
    if p == 0 {
        assert(head == whole);
        lemma_find_none(whole, '.', 0);
        assert(frac.len() == 0);
        assert(d == 1);
    } else {
        assert(head == whole + seq!['.'] + frac);
        lemma_split_at(whole, '.', frac);
        assert(text::is_digit(frac[0]));
    }
    assert(amount_parts(head) == (whole, frac));
    let w = if amount < 0 {
        -((m / d) as int)
    } else {
        (m / d) as int
    };
    if amount < 0 {
        assert(whole.skip(1) == digits);
        assert(whole.take(1) == seq!['-']);
    } else {
        assert(whole == digits);
        assert(whole.take(1)[0] != '-');
    }
    assert(text::parsed_i64(whole) == Some(w));
    assert(frac.len() > 0 ==> text::parsed_i64(frac) == Some((m % d) as int));
    assert(frac.len() == p && p % 256 == p);
    let mag = magnitude_of(w);
    let q = (m / d) as int;
    let rem = (m % d) as int;
    if w == i64::MIN {
        assert(mag * d == i64::MIN) by (nonlinear_arith)
            requires
                d == 1,
                mag == i64::MIN,
        ;
    } else {
        assert(mag * d == m - rem) by (nonlinear_arith)
            requires
                mag == q,
                m == q * d + rem,
        ;
    }
    assert(joined_amount(amount < 0, w, rem, p) == Some(amount as int));
    assert(code_value(code_text(c)) * 256 + p == symbol);
    assert(text::has_prefix(whole, seq!['-']) == (amount < 0));
}

/// A text that is read as an amount ends with a space and the code of the
/// amount's symbol.
pub proof fn law_amounts_end_with_their_code(s: Seq<char>)
    ensures
        parsed_asset(s) matches Some((amount, symbol)) ==> exists|number: Seq<char>|
            s == #[trigger] (number + seq![' '] + code_text(symbol / 256)),
{
    text::law_split_at_char(s, ' ');
    if let Some((amount, symbol)) = parsed_asset(s) {
        let (number, code) = text::split_text(s, seq![' '])->0;
        law_code_prints_back(code);
        assert(symbol / 256 == code_value(code));
        assert(s == number + seq![' '] + code_text(symbol / 256));
    }
}

} // verus!
