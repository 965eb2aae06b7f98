//! Core domain model: typed instruments parsed from yfinance-style tickers,
//! the eight market regimes, trading sessions and order sides.
use vstd::prelude::*;

use crate::text::{
    ascii_upper,
    ends_with, ends_with_chars, prefix_chars, str_chars, string_chars, string_from_chars,
    string_from_range, string_of, to_upper_chars, trim, trim_chars, upper, is_ascii, is_trimmed,
    lemma_trim_is_trimmed, lemma_trim_of_trimmed,
};

verus! {

/// Broad asset class, used by the execution router to pick a contract type.
#[derive(Debug, Clone, Copy, PartialEq, Eq, Structural)]
pub enum AssetClass {
    Equity,
    Future,
    Forex,
    Crypto,
    Index,
}

/// A tradeable (or data-only) instrument, parsed from a yfinance-style ticker.
#[derive(Debug, Clone)]
pub enum Instrument {
    /// Common stock or ETF, e.g. `AAPL`, `SPY`, `IBIT`.
    Equity { symbol: String },
    /// A future: `root` is the broker root (`ES`), `yf` the ticker (`ES=F`).
    Future { root: String, yf: String },
    /// Spot FX pair, e.g. `EUR`/`USD` from `EURUSD=X`.
    Forex { base: String, quote: String },
    /// Crypto spot, e.g. `BTC-USD`.
    Crypto { symbol: String },
    /// Non-tradeable index / yield used for signals only, e.g. `^VIX`.
    Index { symbol: String },
}

/// The abstract value of an [`Instrument`]: its variant and the characters of
/// its fields.
pub enum InstrumentView {
    Equity { symbol: Seq<char> },
    Future { root: Seq<char>, yf: Seq<char> },
    Forex { base: Seq<char>, quote: Seq<char> },
    Crypto { symbol: Seq<char> },
    Index { symbol: Seq<char> },
}

impl View for Instrument {
    type V = InstrumentView;

    open spec fn view(&self) -> InstrumentView {
        match self {
            Instrument::Equity { symbol } => InstrumentView::Equity { symbol: symbol@ },
            Instrument::Future { root, yf } => InstrumentView::Future { root: root@, yf: yf@ },
            Instrument::Forex { base, quote } => InstrumentView::Forex { base: base@, quote: quote@ },
            Instrument::Crypto { symbol } => InstrumentView::Crypto { symbol: symbol@ },
            Instrument::Index { symbol } => InstrumentView::Index { symbol: symbol@ },
        }
    }
}

// ───────────────────────────── UTF-8 widths ─────────────────────────────

/// Bytes that `c` takes in UTF-8 (`char::len_utf8`).
pub open spec fn char_utf8_len(c: char) -> nat {
    let u = c as u32;
    if u < 0x80 {
        1
    } else if u < 0x800 {
        2
    } else if u < 0x10000 {
        3
    } else {
        4
    }
}

/// Bytes that `s` takes in UTF-8 (`str::len`).
pub open spec fn utf8_len(s: Seq<char>) -> nat
    decreases s.len(),
{
    if s.len() == 0 {
        0
    } else {
        utf8_len(s.drop_last()) + char_utf8_len(s.last())
    }
}

/// The number of characters of the shortest prefix of `s`, starting the
/// search at `k`, that takes at least `bytes` bytes (or `s.len()`).
pub open spec fn prefix_reaching(s: Seq<char>, bytes: nat, k: nat) -> nat
    decreases s.len() - k,
{
    if k >= s.len() || utf8_len(s.take(k as int)) >= bytes {
        k
    } else {
        prefix_reaching(s, bytes, k + 1)
    }
}

/// Whether byte offset 3 of `pair` falls on a character boundary
/// (`str::is_char_boundary(3)` for a pair that is six bytes long).
pub open spec fn splits_at_byte_three(pair: Seq<char>) -> bool {
    utf8_len(pair.take(prefix_reaching(pair, 3, 0) as int)) == 3
}

/// `char::len_utf8`.
pub fn utf8_width(c: char) -> (n: usize)
    ensures
        n == char_utf8_len(c),
{
    let u = c as u32;
    if u < 0x80 {
        1
    } else if u < 0x800 {
        2
    } else if u < 0x10000 {
        3
    } else {
        4
    }
}

proof fn lemma_utf8_len_take_step(s: Seq<char>, k: int)
    requires
        0 <= k < s.len(),
    ensures
        utf8_len(s.take(k + 1)) == utf8_len(s.take(k)) + char_utf8_len(s[k]),
{
    assert(s.take(k + 1).drop_last() =~= s.take(k));
}

proof fn lemma_utf8_len_bounds(s: Seq<char>)
    ensures
        s.len() <= utf8_len(s) <= 4 * s.len(),
    decreases s.len(),
{
    if s.len() > 0 {
        lemma_utf8_len_bounds(s.drop_last());
    }
}

/// The byte length of `v` (`str::len`), when it stays below `bound`; `bound`
/// otherwise.
fn utf8_len_capped(v: &Vec<char>, bound: usize) -> (n: usize)
    requires
        bound > 0,
    ensures
        n == if utf8_len(v@) < bound { utf8_len(v@) } else { bound as nat },
{
    let mut total: usize = 0;
    let mut i: usize = 0;
    while i < v.len()
        invariant
            i <= v@.len(),
            total == utf8_len(v@.take(i as int)),
            total < bound,
        decreases v@.len() - i,
    {
        proof {
            lemma_utf8_len_take_step(v@, i as int);
        }
        let w = utf8_width(v[i]);
        if w >= bound - total {
            proof {
                lemma_utf8_len_monotone(v@, i as int + 1);
            }
            return bound;
        }
        total = total + w;
        i = i + 1;
    }
    assert(v@.take(v@.len() as int) =~= v@);
    total
}

proof fn lemma_utf8_len_monotone(s: Seq<char>, k: int)
    requires
        0 <= k <= s.len(),
    ensures
        utf8_len(s.take(k)) <= utf8_len(s),
    decreases s.len() - k,
{
    if k < s.len() {
        lemma_utf8_len_take_step(s, k);
        lemma_utf8_len_monotone(s, k + 1);
    } else {
        assert(s.take(k) =~= s);
    }
}

/// The number of leading characters of `v` that make up its first three
/// bytes, or `None` when byte offset 3 falls inside a character.
fn char_count_of_three_bytes(v: &Vec<char>) -> (r: Option<usize>)
    requires
        utf8_len(v@) >= 3,
    ensures
        splits_at_byte_three(v@) <==> r is Some,
        r matches Some(k) ==> k <= v@.len() && k == prefix_reaching(v@, 3, 0),
{
    let mut total: usize = 0;
    let mut i: usize = 0;
    proof {
        lemma_utf8_len_monotone(v@, 0);
    }
    while total < 3
        invariant
            i <= v@.len(),
            total == utf8_len(v@.take(i as int)),
            utf8_len(v@) >= 3,
            prefix_reaching(v@, 3, 0) == prefix_reaching(v@, 3, i as nat),
        decreases v@.len() - i,
    {
        if i >= v.len() {
            assert(v@.take(i as int) =~= v@);
            assert(false);
        }
        proof {
            lemma_utf8_len_take_step(v@, i as int);
        }
        let w = utf8_width(v[i]);
        total = total + w;
        i = i + 1;
    }
    if total == 3 {
        Some(i)
    } else {
        None
    }
}

// ───────────────────────────── parsing ─────────────────────────────

/// The crypto quote suffixes, in the order they are tried.
pub open spec fn is_crypto_ticker(u: Seq<char>) -> bool {
    ||| ends_with(u, seq!['-', 'U', 'S', 'D'])
    ||| ends_with(u, seq!['-', 'U', 'S', 'D', 'T'])
    ||| ends_with(u, seq!['-', 'B', 'T', 'C'])
}

/// The normalised ticker: trimmed and ASCII upper-cased.
pub open spec fn normalize(raw: Seq<char>) -> Seq<char> {
    upper(trim(raw))
}

/// The FX pair of a `...=X` ticker.
pub open spec fn forex_pair(u: Seq<char>) -> Seq<char> {
    u.take(u.len() - 2)
}

/// Whether [`Instrument::parse`] completes on `raw`: it only fails on an FX
/// ticker whose pair is six bytes long but cannot be cut after its third byte.
pub open spec fn parse_defined(raw: Seq<char>) -> bool {
    let u = normalize(raw);
    !(!(u.len() > 0 && u[0] == '^') && !ends_with(u, seq!['=', 'F']) && ends_with(u, seq!['=', 'X'])
        && utf8_len(forex_pair(u)) == 6 && !splits_at_byte_three(forex_pair(u)))
}

/// The instrument a ticker denotes. Rules, in priority order: `^...` is an
/// index, `...=F` a future, `...=X` an FX pair (a six-byte pair splits 3/3,
/// anything else is quoted in USD), `...-USD`/`-USDT`/`-BTC` crypto, and
/// anything else an equity.
pub open spec fn spec_parse(raw: Seq<char>) -> InstrumentView {
    let u = normalize(raw);
    if u.len() > 0 && u[0] == '^' {
        InstrumentView::Index { symbol: u }
    } else if ends_with(u, seq!['=', 'F']) {
        InstrumentView::Future { root: u.take(u.len() - 2), yf: u }
    } else if ends_with(u, seq!['=', 'X']) {
        let pair = forex_pair(u);
        if utf8_len(pair) == 6 {
            let k = prefix_reaching(pair, 3, 0) as int;
            InstrumentView::Forex { base: pair.take(k), quote: pair.skip(k) }
        } else {
            InstrumentView::Forex { base: pair, quote: seq!['U', 'S', 'D'] }
        }
    } else if is_crypto_ticker(u) {
        InstrumentView::Crypto { symbol: u }
    } else {
        InstrumentView::Equity { symbol: u }
    }
}

/// The canonical ticker of an instrument.
pub open spec fn spec_yf_ticker(i: InstrumentView) -> Seq<char> {
    match i {
        InstrumentView::Equity { symbol } => symbol,
        InstrumentView::Crypto { symbol } => symbol,
        InstrumentView::Index { symbol } => symbol,
        InstrumentView::Future { yf, .. } => yf,
        InstrumentView::Forex { base, quote } => base + quote + seq!['=', 'X'],
    }
}

/// The asset class of an instrument.
pub open spec fn spec_asset_class(i: InstrumentView) -> AssetClass {
    match i {
        InstrumentView::Equity { .. } => AssetClass::Equity,
        InstrumentView::Future { .. } => AssetClass::Future,
        InstrumentView::Forex { .. } => AssetClass::Forex,
        InstrumentView::Crypto { .. } => AssetClass::Crypto,
        InstrumentView::Index { .. } => AssetClass::Index,
    }
}


proof fn lemma_utf8_len_concat(a: Seq<char>, b: Seq<char>)
    ensures
        utf8_len(a + b) == utf8_len(a) + utf8_len(b),
    decreases b.len(),
{
    if b.len() == 0 {
        assert(a + b =~= a);
    } else {
        lemma_utf8_len_concat(a, b.drop_last());
        assert((a + b).drop_last() =~= a + b.drop_last());
    }
}

proof fn lemma_utf8_len_take_strict(s: Seq<char>, k: int)
    requires
        0 <= k < s.len(),
    ensures
        utf8_len(s.take(k)) < utf8_len(s),
{
    lemma_utf8_len_take_step(s, k);
    lemma_utf8_len_monotone(s, k + 1);
}

/// The first prefix of `p + q` with three bytes is `p` when `p` has three.
proof fn lemma_prefix_reaching_concat(p: Seq<char>, q: Seq<char>, k: nat)
    requires
        utf8_len(p) == 3,
        k <= p.len(),
    ensures
        prefix_reaching(p + q, 3, k) == p.len(),
    decreases p.len() - k,
{
    let s = p + q;
    if k < p.len() {
        assert(s.take(k as int) =~= p.take(k as int));
        lemma_utf8_len_take_strict(p, k as int);
        lemma_prefix_reaching_concat(p, q, k + 1);
    } else {
        assert(s.take(k as int) =~= p);
    }
}

proof fn lemma_prefix_reaching_bound(s: Seq<char>, b: nat, k: nat)
    requires
        k <= s.len(),
    ensures
        k <= prefix_reaching(s, b, k) <= s.len(),
    decreases s.len() - k,
{
    if k < s.len() && utf8_len(s.take(k as int)) < b {
        lemma_prefix_reaching_bound(s, b, k + 1);
    }
}

proof fn lemma_upper_fixed(s: Seq<char>)
    ensures
        upper(upper(s)) == upper(s),
        is_trimmed(s) ==> is_trimmed(upper(s)),
{
    assert(upper(upper(s)) =~= upper(s));
}

proof fn lemma_upper_concat(a: Seq<char>, b: Seq<char>)
    ensures
        upper(a + b) == upper(a) + upper(b),
{
    assert(upper(a + b) =~= upper(a) + upper(b));
}

/// Law: re-parsing the canonical ticker of a parsed instrument gives the same
/// instrument. The one exception is an FX ticker whose pair is neither three
/// nor six bytes long: its pair gets `USD` appended and no longer re-splits
/// the same way.
pub proof fn lemma_yf_ticker_roundtrip(raw: Seq<char>)
    requires
        parse_defined(raw),
        spec_parse(raw) is Forex ==> (utf8_len(forex_pair(normalize(raw))) == 3 || utf8_len(
            forex_pair(normalize(raw)),
        ) == 6),
    ensures
        parse_defined(spec_yf_ticker(spec_parse(raw))),
        spec_parse(spec_yf_ticker(spec_parse(raw))) == spec_parse(raw),
{
    let u = normalize(raw);
    lemma_trim_is_trimmed(raw);
    lemma_upper_fixed(trim(raw));
    assert(upper(u) == u);
    assert(is_trimmed(u));
    lemma_trim_of_trimmed(u);
    assert(normalize(u) == u);
    let yf = spec_yf_ticker(spec_parse(raw));
    if !(u.len() > 0 && u[0] == '^') && !ends_with(u, seq!['=', 'F']) && ends_with(u, seq!['=', 'X']) {
        let pair = forex_pair(u);
        let x = seq!['=', 'X'];
        assert(u =~= pair + x);
        let usd = seq!['U', 'S', 'D'];
        let (base, quote) = if utf8_len(pair) == 6 {
            let k = prefix_reaching(pair, 3, 0) as int;
            (pair.take(k), pair.skip(k))
        } else {
            (pair, usd)
        };
        assert(yf == base + quote + x);
        let pair2 = base + quote;
        assert(yf =~= pair2 + x);
        // the reconstructed ticker is already normalised
        assert(upper(usd) =~= usd);
        assert(upper(x) =~= x);
        lemma_upper_concat(pair, x);
        assert(upper(pair) =~= pair) by {
            assert forall|i: int| 0 <= i < pair.len() implies #[trigger] upper(pair)[i] == pair[i] by {
                assert(pair[i] == u[i]);
                assert(upper(u)[i] == u[i]);
            }
        }
        if utf8_len(pair) == 6 {
            let k = prefix_reaching(pair, 3, 0) as int;
            lemma_prefix_reaching_bound(pair, 3, 0);
            assert(pair2 =~= pair);
        } else {
            lemma_upper_concat(pair, usd);
            assert(utf8_len(usd) == 3) by {
                reveal_with_fuel(utf8_len, 4);
            }
            lemma_utf8_len_concat(pair, usd);
            lemma_prefix_reaching_concat(pair, usd, 0);
            assert(pair2.take(pair.len() as int) =~= pair);
            assert(pair2.skip(pair.len() as int) =~= usd);
        }
        lemma_upper_concat(pair2, x);
        assert(upper(yf) == yf);
        if pair2.len() > 0 {
            assert(yf[0] == pair2[0]);
        }
        assert(is_trimmed(yf)) by {
            if utf8_len(pair) == 6 {
                assert(pair.len() > 0) by {
                    if pair.len() == 0 {
                        assert(utf8_len(pair) == 0);
                    }
                }
                assert(pair2[0] == u[0]);
            } else {
                if pair.len() > 0 {
                    assert(pair2[0] == u[0]);
                } else {
                    assert(pair2[0] == 'U');
                }
            }
            assert(yf.last() == 'X');
        }
        lemma_trim_of_trimmed(yf);
        assert(normalize(yf) == yf);
        assert(forex_pair(yf) =~= pair2);
        assert(!ends_with(yf, seq!['=', 'F'])) by {
            assert(yf.last() == 'X');
            assert(yf.subrange(yf.len() - 2, yf.len() as int)[1] == 'X');
        }
        assert(!(yf.len() > 0 && yf[0] == '^')) by {
            if pair.len() > 0 {
                assert(yf[0] == u[0]);
            }
        }
        assert(yf.subrange(yf.len() - 2, yf.len() as int) =~= x);
        assert(ends_with(yf, x));
        if utf8_len(pair) == 6 {
            assert(spec_parse(yf) == spec_parse(raw));
        } else {
            assert(utf8_len(pair2) == 6);
            assert(prefix_reaching(pair2, 3, 0) == pair.len());
            assert(spec_parse(yf) == InstrumentView::Forex { base: pair, quote: usd });
        }
    } else {
        assert(yf == u);
    }
}

proof fn lemma_ascii_take(s: Seq<char>, k: int)
    requires
        is_ascii(s),
        0 <= k <= s.len(),
    ensures
        is_ascii(s.take(k)),
        is_ascii(s.skip(k)),
{
    assert forall|i: int| 0 <= i < s.take(k).len() implies (#[trigger] s.take(k)[i] as u32) < 128 by {
        assert(s.take(k)[i] == s[i]);
    }
    assert forall|i: int| 0 <= i < s.skip(k).len() implies (#[trigger] s.skip(k)[i] as u32) < 128 by {
        assert(s.skip(k)[i] == s[i + k]);
    }
}

proof fn lemma_ascii_utf8_len(s: Seq<char>)
    requires
        is_ascii(s),
    ensures
        utf8_len(s) == s.len(),
    decreases s.len(),
{
    if s.len() > 0 {
        lemma_ascii_take(s, s.len() - 1);
        assert(s.take(s.len() - 1) =~= s.drop_last());
        lemma_ascii_utf8_len(s.drop_last());
        assert((s[s.len() - 1] as u32) < 128);
    }
}

proof fn lemma_ascii_prefix_reaching(s: Seq<char>, bytes: nat, k: nat)
    requires
        is_ascii(s),
        k <= bytes <= s.len(),
    ensures
        prefix_reaching(s, bytes, k) == bytes,
    decreases bytes - k,
{
    lemma_ascii_take(s, k as int);
    lemma_ascii_utf8_len(s.take(k as int));
    if k < bytes {
        lemma_ascii_prefix_reaching(s, bytes, k + 1);
    }
}

proof fn lemma_normalize_ascii(raw: Seq<char>)
    requires
        is_ascii(raw),
    ensures
        is_ascii(normalize(raw)),
{
    lemma_trim_is_trimmed(raw);
    let (a, b) = choose|a: int, b: int| 0 <= a <= b <= raw.len() && trim(raw) == #[trigger] raw.subrange(a, b);
    let t = trim(raw);
    assert forall|i: int| 0 <= i < normalize(raw).len() implies (#[trigger] normalize(raw)[i] as u32) < 128 by {
        assert(t[i] == raw[a + i]);
        assert(normalize(raw)[i] == ascii_upper(t[i]));
    }
}

/// Law, on ASCII tickers: parsing always completes; the canonical ticker of
/// the parsed instrument is the normalised ticker, unless it is an FX ticker
/// whose pair is not six characters long (that pair gets `USD` appended); and
/// re-parsing the canonical ticker gives the same instrument, unless it is an
/// FX pair whose base is not three characters long.
pub proof fn lemma_ascii_ticker_laws(raw: Seq<char>)
    requires
        is_ascii(raw),
    ensures
        parse_defined(raw),
        (spec_parse(raw) is Forex ==> forex_pair(normalize(raw)).len() == 6) ==> spec_yf_ticker(
            spec_parse(raw),
        ) == normalize(raw),
        (spec_parse(raw) matches InstrumentView::Forex { base, .. } ==> base.len() == 3) ==> spec_parse(
            spec_yf_ticker(spec_parse(raw)),
        ) == spec_parse(raw),
{
    let u = normalize(raw);
    lemma_normalize_ascii(raw);
    if u.len() >= 2 {
        let pair = forex_pair(u);
        lemma_ascii_take(u, u.len() - 2);
        lemma_ascii_utf8_len(pair);
        if pair.len() == 6 {
            lemma_ascii_prefix_reaching(pair, 3, 0);
            lemma_ascii_take(pair, 3);
            lemma_ascii_utf8_len(pair.take(3));
            if ends_with(u, seq!['=', 'X']) {
                assert(pair.take(3) + pair.skip(3) + seq!['=', 'X'] =~= u);
            }
        }
    }
    match spec_parse(raw) {
        InstrumentView::Forex { base, .. } => {
            if base.len() == 3 {
                lemma_yf_ticker_roundtrip(raw);
            }
        },
        _ => {
            lemma_yf_ticker_roundtrip(raw);
        },
    }
}

impl Instrument {
    /// Parse a yfinance-style ticker into a typed instrument (see
    /// [`spec_parse`] for the rules).
    pub fn parse(raw: &str) -> (r: Self)
        requires
            parse_defined(raw@),
        ensures
            r@ == spec_parse(raw@),
    {
        let v = str_chars(raw);
        let t = trim_chars(&v);
        let u = to_upper_chars(&t);
        let n = u.len();
        if n > 0 && u[0] == '^' {
            return Instrument::Index { symbol: string_from_chars(&u) };
        }
        let fut = vec!['=', 'F'];
        if ends_with_chars(&u, &fut) {
            let root = string_from_range(&u, 0, n - 2);
            let yf = string_from_chars(&u);
            return Instrument::Future { root, yf };
        }
        let fx = vec!['=', 'X'];
        if ends_with_chars(&u, &fx) {
            let pair = prefix_chars(&u, n - 2);
            assert(pair@ == forex_pair(u@));
            let m = pair.len();
            if utf8_len_capped(&pair, 7) == 6 {
                match char_count_of_three_bytes(&pair) {
                    Some(k) => {
                        let base = string_from_range(&pair, 0, k);
                        let quote = string_from_range(&pair, k, m);
                        assert(pair@.subrange(0, k as int) =~= pair@.take(k as int));
                        assert(pair@.subrange(k as int, m as int) =~= pair@.skip(k as int));
                        return Instrument::Forex { base, quote };
                    },
                    None => {
                        assert(false);
                        return Instrument::Forex { base: string_from_chars(&pair), quote: string_of("USD") };
                    },
                }
            } else {
                let usd = vec!['U', 'S', 'D'];
                return Instrument::Forex { base: string_from_chars(&pair), quote: string_from_chars(&usd) };
            }
        }
        let c1 = vec!['-', 'U', 'S', 'D'];
        let c2 = vec!['-', 'U', 'S', 'D', 'T'];
        let c3 = vec!['-', 'B', 'T', 'C'];
        if ends_with_chars(&u, &c1) || ends_with_chars(&u, &c2) || ends_with_chars(&u, &c3) {
            return Instrument::Crypto { symbol: string_from_chars(&u) };
        }
        Instrument::Equity { symbol: string_from_chars(&u) }
    }

    /// The broad asset class.
    pub fn asset_class(&self) -> (c: AssetClass)
        ensures
            c == spec_asset_class(self@),
    {
        match self {
            Instrument::Equity { .. } => AssetClass::Equity,
            Instrument::Future { .. } => AssetClass::Future,
            Instrument::Forex { .. } => AssetClass::Forex,
            Instrument::Crypto { .. } => AssetClass::Crypto,
            Instrument::Index { .. } => AssetClass::Index,
        }
    }

    /// Reconstruct the canonical yfinance ticker.
    pub fn yf_ticker(&self) -> (s: String)
        ensures
            s@ == spec_yf_ticker(self@),
    {
        match self {
            Instrument::Equity { symbol } => symbol.clone(),
            Instrument::Crypto { symbol } => symbol.clone(),
            Instrument::Index { symbol } => symbol.clone(),
            Instrument::Future { yf, .. } => yf.clone(),
            Instrument::Forex { base, quote } => {
                let mut v = string_chars(base);
                let q = string_chars(quote);
                let mut i: usize = 0;
                while i < q.len()
                    invariant
                        i <= q@.len(),
                        v@ == base@ + q@.take(i as int),
                    decreases q@.len() - i,
                {
                    v.push(q[i]);
                    i = i + 1;
                    assert(v@ =~= base@ + q@.take(i as int));
                }
                v.push('=');
                v.push('X');
                assert(q@.take(q@.len() as int) =~= q@);
                assert(v@ =~= base@ + quote@ + seq!['=', 'X']);
                string_from_chars(&v)
            },
        }
    }

    /// Index/yield instruments are signal-only and can never be ordered.
    pub fn is_orderable(&self) -> (b: bool)
        ensures
            b == (spec_asset_class(self@) != AssetClass::Index),
    {
        !matches!(self, Instrument::Index { .. })
    }

    /// Non-equity instruments follow futures/forex/crypto hours, not equity hours.
    pub fn is_non_equity(&self) -> (b: bool)
        ensures
            b == (spec_asset_class(self@) != AssetClass::Equity),
    {
        !matches!(self, Instrument::Equity { .. })
    }
}

/// The 8 market regimes.
#[derive(Debug, Clone, Copy, PartialEq, Eq, Structural, Hash)]
pub enum Regime {
    Bull,
    Bear,
    Sideways,
    Crisis,
    Recovery,
    Goldilocks,
    Reflation,
    Stagflation,
}

/// The regimes in canonical order (the Markov state ids).
pub open spec fn regime_at(i: int) -> Regime {
    if i == 0 {
        Regime::Bull
    } else if i == 1 {
        Regime::Bear
    } else if i == 2 {
        Regime::Sideways
    } else if i == 3 {
        Regime::Crisis
    } else if i == 4 {
        Regime::Recovery
    } else if i == 5 {
        Regime::Goldilocks
    } else if i == 6 {
        Regime::Reflation
    } else {
        Regime::Stagflation
    }
}

impl Regime {
    /// The canonical position of the regime.
    pub open spec fn spec_index(self) -> int {
        match self {
            Regime::Bull => 0,
            Regime::Bear => 1,
            Regime::Sideways => 2,
            Regime::Crisis => 3,
            Regime::Recovery => 4,
            Regime::Goldilocks => 5,
            Regime::Reflation => 6,
            Regime::Stagflation => 7,
        }
    }

    /// The stable label of the regime.
    pub open spec fn label(self) -> Seq<char> {
        match self {
            Regime::Bull => seq!['B', 'U', 'L', 'L'],
            Regime::Bear => seq!['B', 'E', 'A', 'R'],
            Regime::Sideways => seq!['S', 'I', 'D', 'E', 'W', 'A', 'Y', 'S'],
            Regime::Crisis => seq!['C', 'R', 'I', 'S', 'I', 'S'],
            Regime::Recovery => seq!['R', 'E', 'C', 'O', 'V', 'E', 'R', 'Y'],
            Regime::Goldilocks => seq!['G', 'O', 'L', 'D', 'I', 'L', 'O', 'C', 'K', 'S'],
            Regime::Reflation => seq!['R', 'E', 'F', 'L', 'A', 'T', 'I', 'O', 'N'],
            Regime::Stagflation => seq!['S', 'T', 'A', 'G', 'F', 'L', 'A', 'T', 'I', 'O', 'N'],
        }
    }

    /// All regimes, in canonical order.
    pub fn all() -> (v: Vec<Regime>)
        ensures
            v@.len() == 8,
            forall|i: int| 0 <= i < 8 ==> #[trigger] v@[i] == regime_at(i),
    {
        vec![
            Regime::Bull,
            Regime::Bear,
            Regime::Sideways,
            Regime::Crisis,
            Regime::Recovery,
            Regime::Goldilocks,
            Regime::Reflation,
            Regime::Stagflation,
        ]
    }

    /// Stable string label.
    pub fn as_str(&self) -> (s: &'static str)
        ensures
            s@ == self.label(),
    {
        match self {
            Regime::Bull => {
                proof {
                    reveal_strlit("BULL");
                }
                "BULL"
            },
            Regime::Bear => {
                proof {
                    reveal_strlit("BEAR");
                }
                "BEAR"
            },
            Regime::Sideways => {
                proof {
                    reveal_strlit("SIDEWAYS");
                }
                "SIDEWAYS"
            },
            Regime::Crisis => {
                proof {
                    reveal_strlit("CRISIS");
                }
                "CRISIS"
            },
            Regime::Recovery => {
                proof {
                    reveal_strlit("RECOVERY");
                }
                "RECOVERY"
            },
            Regime::Goldilocks => {
                proof {
                    reveal_strlit("GOLDILOCKS");
                }
                "GOLDILOCKS"
            },
            Regime::Reflation => {
                proof {
                    reveal_strlit("REFLATION");
                }
                "REFLATION"
            },
            Regime::Stagflation => {
                proof {
                    reveal_strlit("STAGFLATION");
                }
                "STAGFLATION"
            },
        }
    }

    /// Position in the canonical order — the Markov chain state id.
    pub fn index(&self) -> (i: usize)
        ensures
            i == self.spec_index(),
            i < 8,
    {
        match self {
            Regime::Bull => 0,
            Regime::Bear => 1,
            Regime::Sideways => 2,
            Regime::Crisis => 3,
            Regime::Recovery => 4,
            Regime::Goldilocks => 5,
            Regime::Reflation => 6,
            Regime::Stagflation => 7,
        }
    }

    /// Map a state id back to a regime, saturating at the last variant:
    /// ids past the last one give `Stagflation`.
    pub fn from_index(i: usize) -> (r: Regime)
        ensures
            i < 8 ==> r == regime_at(i as int),
            i >= 8 ==> r == Regime::Stagflation,
    {
        match i {
            0 => Regime::Bull,
            1 => Regime::Bear,
            2 => Regime::Sideways,
            3 => Regime::Crisis,
            4 => Regime::Recovery,
            5 => Regime::Goldilocks,
            6 => Regime::Reflation,
            _ => Regime::Stagflation,
        }
    }
}

/// Law: a regime's index maps back to the regime, and every index below 8
/// maps to a regime with that index.
pub proof fn lemma_regime_index_roundtrip(r: Regime, i: int)
    ensures
        regime_at(r.spec_index()) == r,
        0 <= i < 8 ==> regime_at(i).spec_index() == i,
{
}

/// US equity trading session.
#[derive(Debug, Clone, Copy, PartialEq, Eq, Structural)]
pub enum Session {
    Premarket,
    Regular,
    Postmarket,
    Closed,
}

/// Order side.
#[derive(Debug, Clone, Copy, PartialEq, Eq, Structural)]
pub enum Side {
    Buy,
    Sell,
    Short,
}

} // verus!
