//! Resolution resolver: reads an optional caller-supplied density value from
//! an untrusted query string and yields an effective density, falling back to
//! the 96-DPI baseline on absence or invalid input.

use vstd::prelude::*;

verus! {

/// One abstract unit in fixed point: all densities and sizes carry four
/// decimal places.
pub const FP4_ONE: u64 = 10_000;

/// The baseline density, 96 dots per inch, in fixed point.
pub const BASELINE_DPI_RAW: u64 = 960_000;

/// The largest accepted density in fixed point (one trillion DPI). A
/// requested value above this is treated like any other unusable value and
/// falls back to the baseline.
pub const MAX_DPI_RAW: u64 = 10_000_000_000_000_000;

/// The largest integer part a density numeral may have, `MAX_DPI_RAW`
/// divided by `FP4_ONE`.
pub const MAX_DPI_INT_PART: u64 = 1_000_000_000_000;

/// An effective pixel density in fixed-point dots per inch: `raw` is the
/// density multiplied by `FP4_ONE`. Always positive and bounded.
#[derive(Clone, Copy, Debug, PartialEq, Eq, Structural)]
pub struct Dpi {
    pub raw: u64,
}

impl Dpi {
    /// A density is well formed when it is positive and within the accepted
    /// range.
    pub open spec fn wf(self) -> bool {
        0 < self.raw <= MAX_DPI_RAW
    }

    /// The baseline density, 96 dots per inch.
    pub fn baseline() -> (d: Dpi)
        ensures
            d.raw == BASELINE_DPI_RAW,
            d.wf(),
    {
        Dpi { raw: BASELINE_DPI_RAW }
    }
}

/// An ASCII decimal digit.
pub open spec fn is_digit_byte(b: u8) -> bool {
    48 <= b <= 57
}

/// Every byte of `s` is an ASCII decimal digit.
pub open spec fn all_digits(s: Seq<u8>) -> bool {
    forall|i: int| 0 <= i < s.len() ==> is_digit_byte(s[i])
}

/// The integer a digit string denotes, most significant digit first.
pub open spec fn digits_value(s: Seq<u8>) -> int
    decreases s.len(),
{
    if s.len() == 0 {
        0
    } else {
        digits_value(s.drop_last()) * 10 + (s.last() - 48)
    }
}

/// Powers of ten.
pub open spec fn pow10(n: nat) -> int
    decreases n,
{
    if n == 0 {
        1
    } else {
        10 * pow10((n - 1) as nat)
    }
}

/// The index of the first `.` in `s` at or after `i`, or `s.len()` if there
/// is none.
pub open spec fn dot_pos(s: Seq<u8>, i: int) -> int
    decreases s.len() - i,
{
    if i < 0 || i >= s.len() {
        s.len() as int
    } else if s[i] == 46 {
        i
    } else {
        dot_pos(s, i + 1)
    }
}

/// The value of `s` read as a decimal numeral, scaled by `FP4_ONE`, or
/// `None` when `s` is not of the form `digits` or `digits '.' digits`, with
/// one to four fractional digits.
pub open spec fn decimal_fp4(s: Seq<u8>) -> Option<int> {
    let d = dot_pos(s, 0);
    if d == s.len() {
        if s.len() > 0 && all_digits(s) {
            Some(digits_value(s) * 10_000)
        } else {
            None
        }
    } else {
        let ip = s.subrange(0, d);
        let fp = s.subrange(d + 1, s.len() as int);
        if 0 < ip.len() && 0 < fp.len() <= 4 && all_digits(ip) && all_digits(fp) {
            Some(digits_value(ip) * 10_000 + digits_value(fp) * pow10((4 - fp.len()) as nat))
        } else {
            None
        }
    }
}

/// A digit string denotes a nonnegative integer.
pub proof fn lemma_digits_value_nonneg(s: Seq<u8>)
    requires
        all_digits(s),
    ensures
        digits_value(s) >= 0,
    decreases s.len(),
{
    if s.len() > 0 {
        assert(all_digits(s.drop_last())) by {
            assert(forall|i: int|
                0 <= i < s.drop_last().len() ==> s.drop_last()[i] == s[i]);
        }
        lemma_digits_value_nonneg(s.drop_last());
    }
}

/// A digit string of `n` digits denotes a value below `pow10(n)`.
pub proof fn lemma_digits_value_bound(s: Seq<u8>)
    requires
        all_digits(s),
    ensures
        digits_value(s) < pow10(s.len()),
    decreases s.len(),
{
    if s.len() == 0 {
    } else {
        assert(all_digits(s.drop_last())) by {
            assert(forall|i: int|
                0 <= i < s.drop_last().len() ==> s.drop_last()[i] == s[i]);
        }
        lemma_digits_value_bound(s.drop_last());
        assert(digits_value(s.drop_last()) <= pow10((s.len() - 1) as nat) - 1);
        assert(is_digit_byte(s.last()));
        assert(digits_value(s) <= (pow10((s.len() - 1) as nat) - 1) * 10 + 9) by (nonlinear_arith)
            requires
                digits_value(s) == digits_value(s.drop_last()) * 10 + (s.last() - 48),
                digits_value(s.drop_last()) <= pow10((s.len() - 1) as nat) - 1,
                s.last() - 48 <= 9;
        assert(pow10(s.len()) == 10 * pow10((s.len() - 1) as nat));
    }
}

/// Dropping trailing digits never increases the denoted value.
pub proof fn lemma_digits_value_prefix(s: Seq<u8>, i: int)
    requires
        all_digits(s),
        0 <= i <= s.len(),
    ensures
        digits_value(s.subrange(0, i)) <= digits_value(s),
    decreases s.len() - i,
{
    if i == s.len() {
        assert(s.subrange(0, i) =~= s);
    } else {
        let t = s.subrange(0, i + 1);
        assert(t.drop_last() =~= s.subrange(0, i));
        assert(is_digit_byte(t.last()));
        lemma_digits_value_nonneg(s.subrange(0, i));
        assert(digits_value(t) == digits_value(s.subrange(0, i)) * 10 + (t.last() - 48));
        assert(digits_value(s.subrange(0, i)) * 10 >= digits_value(s.subrange(0, i))) by {
            lemma_digits_value_nonneg(s.subrange(0, i));
            assert(digits_value(s.subrange(0, i)) * 10 == digits_value(s.subrange(0, i)) + digits_value(s.subrange(0, i)) * 9);
            assert(digits_value(s.subrange(0, i)) * 9 >= 0) by (nonlinear_arith)
                requires digits_value(s.subrange(0, i)) >= 0;
        }
        lemma_digits_value_prefix(s, i + 1);
    }
}

/// `dot_pos(s, j)` is the first `.` at or after `j`: if no byte in
/// `[j, k)` is a `.` and `k` is the end or holds one, the scan stops at `k`.
pub proof fn lemma_dot_pos_from(s: Seq<u8>, j: int, k: int)
    requires
        0 <= j <= k <= s.len(),
        forall|m: int| j <= m < k ==> s[m] != 46,
        k == s.len() || s[k] == 46,
    ensures
        dot_pos(s, j) == k,
    decreases k - j,
{
    if j < k {
        lemma_dot_pos_from(s, j + 1, k);
    }
}

/// Reads the digit string `v[start..end]` as an integer. `None` when a
/// non-digit occurs or the value exceeds `cap`.
fn parse_digits(v: &Vec<u8>, start: usize, end: usize, cap: u64) -> (r: Option<u64>)
    requires
        start <= end <= v.len(),
        cap <= MAX_DPI_RAW,
    ensures
        match r {
            Some(x) => all_digits(v@.subrange(start as int, end as int))
                && x == digits_value(v@.subrange(start as int, end as int))
                && x <= cap,
            None => !all_digits(v@.subrange(start as int, end as int))
                || digits_value(v@.subrange(start as int, end as int)) > cap,
        },
{
    let ghost seg = v@.subrange(start as int, end as int);
    let mut acc: u64 = 0;
    let mut i: usize = start;
    while i < end
        invariant
            start <= i <= end <= v.len(),
            cap <= MAX_DPI_RAW,
            seg == v@.subrange(start as int, end as int),
            all_digits(v@.subrange(start as int, i as int)),
            acc == digits_value(v@.subrange(start as int, i as int)),
            acc <= cap,
        decreases end - i,
    {
        let b = v[i];
        let ghost pre = v@.subrange(start as int, i as int);
        if b < 48 || b > 57 {
            assert(!all_digits(seg)) by {
                assert(seg[i - start] == v@[i as int]);
            }
            return None;
        }
        let d = (b - 48) as u64;
        assert(v@.subrange(start as int, i as int + 1) =~= pre.push(b));
        assert(digits_value(pre.push(b)) == digits_value(pre) * 10 + d) by {
            assert(pre.push(b).drop_last() =~= pre);
        }
        let next = acc * 10 + d;
        if next > cap {
            proof {
                if all_digits(seg) {
                    assert(seg.subrange(0, i as int + 1 - start) =~= v@.subrange(
                        start as int,
                        i as int + 1,
                    ));
                    lemma_digits_value_prefix(seg, i as int + 1 - start);
                }
            }
            return None;
        }
        acc = next;
        i = i + 1;
    }
    assert(seg =~= v@.subrange(start as int, i as int));
    Some(acc)
}

/// Attempts to read `value` as a positive fixed-point density. `Some` exactly
/// when `value` is a decimal numeral whose scaled value lies in
/// `1 ..= MAX_DPI_RAW`.
pub fn parse_dpi(value: &Vec<u8>) -> (r: Option<Dpi>)
    ensures
        match r {
            Some(d) => d.wf() && decimal_fp4(value@) == Some(d.raw as int),
            None => (decimal_fp4(value@) matches Some(n) ==> !(0 < n <= MAX_DPI_RAW)),
        },
{
    let n = value.len();
    let mut dot: usize = n;
    let mut i: usize = 0;
    while i < n
        invariant
            i <= n == value.len(),
            dot <= n,
            dot == n ==> forall|m: int| 0 <= m < i ==> value@[m] != 46,
            dot < n ==> dot_pos(value@, 0) == dot,
        decreases n - i,
    {
        if dot == n && value[i] == 46 {
            dot = i;
            proof {
                lemma_dot_pos_from(value@, 0, i as int);
            }
        }
        i = i + 1;
    }
    if dot == n {
        proof {
            lemma_dot_pos_from(value@, 0, n as int);
        }
        match parse_digits(value, 0, n, MAX_DPI_INT_PART) {
            Some(x) => {
                assert(value@.subrange(0, n as int) =~= value@);
                let raw = x * FP4_ONE;
                if raw == 0 {
                    None
                } else {
                    Some(Dpi { raw })
                }
            },
            None => {
                proof {
                    assert(value@.subrange(0, n as int) =~= value@);
                    if all_digits(value@) && digits_value(value@) > MAX_DPI_INT_PART {
                        assert(digits_value(value@) * 10_000 > MAX_DPI_RAW);
                    }
                }
                None
            },
        }
    } else {
        proof {
            reveal_with_fuel(pow10, 5);
        }
        let flen = n - dot - 1;
        if dot == 0 || flen == 0 || flen > 4 {
            return None;
        }
        let ip = match parse_digits(value, 0, dot, MAX_DPI_INT_PART) {
            Some(x) => x,
            None => {
                proof {
                    let ipseq = value@.subrange(0, dot as int);
                    if all_digits(ipseq) && digits_value(ipseq) > MAX_DPI_INT_PART {
                        let fpseq = value@.subrange(dot as int + 1, n as int);
                        if all_digits(fpseq) {
                            lemma_digits_value_nonneg(fpseq);
                            lemma_pow10_pos((4 - fpseq.len()) as nat);
                            assert(digits_value(fpseq) * pow10((4 - fpseq.len()) as nat) >= 0)
                                by (nonlinear_arith)
                                requires
                                    digits_value(fpseq) >= 0,
                                    pow10((4 - fpseq.len()) as nat) >= 0;
                            assert(digits_value(ipseq) * 10_000 > MAX_DPI_RAW);
                        }
                    }
                }
                return None;
            },
        };
        let fv = match parse_digits(value, dot + 1, n, 9_999) {
            Some(x) => x,
            None => {
                proof {
                    let fpseq = value@.subrange(dot as int + 1, n as int);
                    if all_digits(fpseq) {
                        lemma_digits_value_bound(fpseq);
                        assert(pow10(fpseq.len()) <= pow10(4)) by {
                            assert(fpseq.len() <= 4);
                            lemma_pow10_increases(fpseq.len(), 4);
                        }
                    }
                }
                return None;
            },
        };
        proof {
            let fpseq = value@.subrange(dot as int + 1, n as int);
            lemma_digits_value_bound(fpseq);
            lemma_pow10_increases(fpseq.len(), 4);
        }
        let scale: u64 = if flen == 1 {
            1_000
        } else if flen == 2 {
            100
        } else if flen == 3 {
            10
        } else {
            1
        };
        assert(scale == pow10((4 - flen) as nat));
        assert(fv * scale < 10_000) by (nonlinear_arith)
            requires
                scale == pow10((4 - flen) as nat),
                1 <= flen <= 4,
                fv < pow10(flen as nat),
                pow10(1) == 10 && pow10(2) == 100 && pow10(3) == 1_000 && pow10(4) == 10_000,
        ;
        let raw = ip * FP4_ONE + fv * scale;
        if raw == 0 || raw > MAX_DPI_RAW {
            None
        } else {
            Some(Dpi { raw })
        }
    }
}

/// The three bytes of the query key `dpi`.
pub open spec fn is_dpi_key(k: Seq<u8>) -> bool {
    k == seq![100u8, 112u8, 105u8]
}

/// The density a single query value yields: its decimal reading when that is
/// positive and in range, the baseline otherwise.
pub open spec fn dpi_from_value(v: Seq<u8>) -> u64 {
    match decimal_fp4(v) {
        Some(x) => if 0 < x <= MAX_DPI_RAW {
            x as u64
        } else {
            BASELINE_DPI_RAW
        },
        None => BASELINE_DPI_RAW,
    }
}

/// The density a decoded query yields: that of the first `dpi` pair, the
/// baseline when there is none.
pub open spec fn resolved_dpi_raw(pairs: Seq<(Seq<u8>, Seq<u8>)>) -> u64
    decreases pairs.len(),
{
    if pairs.len() == 0 {
        BASELINE_DPI_RAW
    } else if is_dpi_key(pairs[0].0) {
        dpi_from_value(pairs[0].1)
    } else {
        resolved_dpi_raw(pairs.drop_first())
    }
}

/// What `form_urlencoded::parse` yields for a query string: its name/value
/// pairs, percent-decoded, as bytes.
pub uninterp spec fn query_pairs_of(q: Seq<char>) -> Seq<(Seq<u8>, Seq<u8>)>;

/// Relies on `form_urlencoded::parse`: splits a query string into
/// `&`-separated `name=value` pairs and percent-decodes each name and value;
/// the result depends on the input alone.
#[verifier::external_body]
fn decode_query_pairs(query: &str) -> (r: Vec<(Vec<u8>, Vec<u8>)>)
    ensures
        r.deep_view() == query_pairs_of(query@),
{
    form_urlencoded::parse(query.as_bytes())
        .map(|(k, v)| (k.into_owned().into_bytes(), v.into_owned().into_bytes()))
        .collect()
}

/// Resolves the effective density from decoded query pairs: the value of the
/// first `dpi` pair when it is a positive in-range decimal, the baseline
/// otherwise.
pub fn resolve_dpi_pairs(pairs: &Vec<(Vec<u8>, Vec<u8>)>) -> (d: Dpi)
    ensures
        d.wf(),
        d.raw == resolved_dpi_raw(pairs.deep_view()),
{
    let ghost dv = pairs.deep_view();
    proof {
        assert(dv.skip(0) =~= dv);
    }
    let n = pairs.len();
    let mut i: usize = 0;
    while i < n
        invariant
            i <= n == pairs.len(),
            dv == pairs.deep_view(),
            resolved_dpi_raw(dv) == resolved_dpi_raw(dv.skip(i as int)),
        decreases n - i,
    {
        let key = &pairs[i].0;
        proof {
            assert(dv[i as int].0 =~= pairs@[i as int].0@);
            assert(dv[i as int].1 =~= pairs@[i as int].1@);
            assert(dv.skip(i as int)[0] == dv[i as int]);
        }
        if key.len() == 3 && key[0] == 100 && key[1] == 112 && key[2] == 105 {
            proof {
                assert(key@ =~= seq![100u8, 112u8, 105u8]);
            }
            let d = match parse_dpi(&pairs[i].1) {
                Some(d) => d,
                None => Dpi::baseline(),
            };
            assert(d.raw == dpi_from_value(dv[i as int].1));
            return d;
        }
        proof {
            assert(!is_dpi_key(dv[i as int].0)) by {
                if dv[i as int].0 == seq![100u8, 112u8, 105u8] {
                    assert(key@ == dv[i as int].0);
                    assert(key@[0] == 100u8 && key@[1] == 112u8 && key@[2] == 105u8);
                }
            }
            assert(dv.skip(i as int).drop_first() =~= dv.skip(i as int + 1));
        }
        i = i + 1;
    }
    proof {
        assert(dv.skip(n as int) =~= Seq::<(Seq<u8>, Seq<u8>)>::empty());
    }
    Dpi::baseline()
}

/// The effective density for an optional query string.
pub open spec fn effective_dpi_raw(query: Option<Seq<char>>) -> u64 {
    match query {
        None => BASELINE_DPI_RAW,
        Some(q) => resolved_dpi_raw(query_pairs_of(q)),
    }
}

/// Locates the `dpi` parameter of the query, if any, and yields the
/// effective density: the requested value when it is a positive in-range
/// decimal, the 96-DPI baseline otherwise.
pub fn resolve_dpi(query: Option<&str>) -> (d: Dpi)
    ensures
        d.wf(),
        d.raw == effective_dpi_raw(
            match query {
                None => None,
                Some(q) => Some(q@),
            },
        ),
{
    match query {
        None => Dpi::baseline(),
        Some(q) => {
            let pairs = decode_query_pairs(q);
            resolve_dpi_pairs(&pairs)
        },
    }
}

/// Default-resolution policy: when every `dpi` pair of the query — and in
/// particular when there is none — carries a value that is not a positive
/// in-range decimal, the resolved density is exactly the baseline.
pub proof fn lemma_dpi_fallback(pairs: Seq<(Seq<u8>, Seq<u8>)>)
    requires
        forall|i: int|
            0 <= i < pairs.len() && is_dpi_key(#[trigger] pairs[i].0) ==> (decimal_fp4(
                pairs[i].1,
            ) matches Some(x) ==> !(0 < x <= MAX_DPI_RAW)),
    ensures
        resolved_dpi_raw(pairs) == BASELINE_DPI_RAW,
    decreases pairs.len(),
{
    if pairs.len() > 0 {
        if is_dpi_key(pairs[0].0) {
            assert(dpi_from_value(pairs[0].1) == BASELINE_DPI_RAW);
        } else {
            assert(forall|i: int|
                0 <= i < pairs.drop_first().len() ==> pairs.drop_first()[i] == pairs[i + 1]);
            lemma_dpi_fallback(pairs.drop_first());
        }
    }
}

/// Requested-resolution policy, the complement of the fallback: when the
/// first `dpi` pair of the query carries a positive in-range decimal, the
/// resolved density is exactly that value. With the exact ratio of
/// `scale_factor` this makes the scale precisely the requested density over
/// 96, for every accepted request.
pub proof fn lemma_requested_dpi_wins(pairs: Seq<(Seq<u8>, Seq<u8>)>, i: int)
    requires
        0 <= i < pairs.len(),
        is_dpi_key(pairs[i].0),
        forall|j: int| 0 <= j < i ==> !is_dpi_key(#[trigger] pairs[j].0),
        decimal_fp4(pairs[i].1) matches Some(x) && 0 < x <= MAX_DPI_RAW,
    ensures
        decimal_fp4(pairs[i].1) == Some(resolved_dpi_raw(pairs) as int),
    decreases i,
{
    if i > 0 {
        assert(forall|j: int|
            0 <= j < pairs.drop_first().len() ==> pairs.drop_first()[j] == pairs[j + 1]);
        lemma_requested_dpi_wins(pairs.drop_first(), i - 1);
    }
}

/// `pow10` is positive.
pub proof fn lemma_pow10_pos(n: nat)
    ensures
        pow10(n) >= 1,
    decreases n,
{
    if n > 0 {
        lemma_pow10_pos((n - 1) as nat);
    }
}

/// `pow10` is monotone.
pub proof fn lemma_pow10_increases(a: nat, b: nat)
    requires
        a <= b,
    ensures
        pow10(a) <= pow10(b),
    decreases b,
{
    if a < b {
        lemma_pow10_increases(a, (b - 1) as nat);
        lemma_pow10_pos((b - 1) as nat);
    }
}

} // verus!
