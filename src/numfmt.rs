use vstd::prelude::*;

verus! {

/// A decimal number: `mantissa * 10^-decimals`.
#[derive(Debug, Clone, Copy, PartialEq, Eq)]
pub struct Decimal {
    pub mantissa: i64,
    pub decimals: u32,
}

impl Decimal {
    pub fn new(mantissa: i64, decimals: u32) -> (r: Decimal)
        ensures
            r.mantissa == mantissa,
            r.decimals == decimals,
    {
        Decimal { mantissa, decimals }
    }
}

pub open spec fn digit_char(d: int) -> char {
    if d == 0 {
        '0'
    } else if d == 1 {
        '1'
    } else if d == 2 {
        '2'
    } else if d == 3 {
        '3'
    } else if d == 4 {
        '4'
    } else if d == 5 {
        '5'
    } else if d == 6 {
        '6'
    } else if d == 7 {
        '7'
    } else if d == 8 {
        '8'
    } else {
        '9'
    }
}

pub open spec fn is_digit(c: char) -> bool {
    '0' <= c && c <= '9'
}

pub open spec fn abs_int(v: int) -> int {
    if v < 0 {
        -v
    } else {
        v
    }
}

/// The decimal digits of `n`, most significant first.
pub open spec fn digits_of(n: nat) -> Seq<char>
    decreases n,
{
    if n < 10 {
        seq![digit_char(n as int)]
    } else {
        digits_of(n / 10).push(digit_char((n % 10) as int))
    }
}

/// `n` zeros.
pub open spec fn zeros(n: int) -> Seq<char> {
    Seq::new(if n > 0 { n as nat } else { 0 }, |i: int| '0')
}

/// `m * 10^-d` with the trailing zeros of `m` folded into `d`; zero is `0 * 10^0`, whatever
/// `d` was.
pub open spec fn normalize(m: nat, d: int) -> (nat, int)
    decreases m,
{
    if m == 0 {
        (0, 0)
    } else if m % 10 == 0 {
        normalize(m / 10, d - 1)
    } else {
        (m, d)
    }
}

/// Whether `m * 10^-d` (normalized, `k` digits) is written in fixed notation to `n`
/// significant figures: when `0.1^n < value < 10^n`.
pub open spec fn fixed_notation(m: nat, d: int, k: int, n: int) -> bool {
    &&& m != 0
    &&& k - d <= n
    &&& (k - 1 - d > -n || (k - 1 - d == -n && m != 1))
}

/// The exponent of a scientific form, with its sign.
pub open spec fn exponent_str(e: int) -> Seq<char> {
    if e < 0 {
        seq!['-'] + digits_of((-e) as nat)
    } else {
        digits_of(e as nat)
    }
}

/// The number written out in full, before rounding to significant figures: fixed notation
/// (`25`, `0.25`) or scientific (`2.5e-4`, `0e0`), as the shortest form of the value.
pub open spec fn raw_form(x: Decimal, n: int) -> Seq<char> {
    let (m, d) = normalize(abs_int(x.mantissa as int) as nat, x.decimals as int);
    let ds = digits_of(m);
    let k = ds.len() as int;
    let sign = if x.mantissa < 0 {
        seq!['-']
    } else {
        Seq::empty()
    };
    if fixed_notation(m, d, k, n) {
        sign + if d <= 0 {
            ds + zeros(-d)
        } else if k > d {
            ds.subrange(0, k - d) + seq!['.'] + ds.subrange(k - d, k)
        } else {
            seq!['0', '.'] + zeros(d - k) + ds
        }
    } else {
        sign + seq![ds[0]] + (if k > 1 {
            seq!['.'] + ds.subrange(1, k)
        } else {
            Seq::empty()
        }) + seq!['e'] + exponent_str(k - 1 - d)
    }
}

/// Where the rounded part of `s` ends: at the `n`-th significant digit, or at `e`, or at the
/// end. Digits count from the first non-zero one: leading zeros are not significant.
pub open spec fn sig_end(s: Seq<char>, i: int, count: int, n: int) -> int
    decreases s.len() - i,
{
    if i >= s.len() || count >= n || s[i] == 'e' {
        i
    } else {
        let c = if is_digit(s[i]) && (s[i] != '0' || count > 0) {
            1int
        } else {
            0
        };
        sig_end(s, i + 1, count + c, n)
    }
}

/// `s` without the zeros that end a decimal fraction.
pub open spec fn trim_zeros(s: Seq<char>) -> Seq<char>
    decreases s.len(),
{
    if s.contains('.') && s.len() > 1 && s.last() == '0' {
        trim_zeros(s.drop_last())
    } else {
        s
    }
}

/// The exponent part of `raw`, kept only when the exponent is not zero.
pub open spec fn exponent_suffix(x: Decimal, n: int) -> Seq<char> {
    let (m, d) = normalize(abs_int(x.mantissa as int) as nat, x.decimals as int);
    let k = digits_of(m).len() as int;
    if fixed_notation(m, d, k, n) || k - 1 - d == 0 {
        Seq::empty()
    } else {
        seq!['e'] + exponent_str(k - 1 - d)
    }
}

/// `x` written to `n` significant figures: see [`raw_form`], cut after the `n`-th
/// significant digit, trailing fractional zeros dropped, and the exponent kept when it is not
/// zero.
pub open spec fn num_str(x: Decimal, n: int) -> Seq<char> {
    let raw = raw_form(x, n);
    trim_zeros(raw.subrange(0, sig_end(raw, 0, 0, n))) + exponent_suffix(x, n)
}

proof fn lemma_digits_len(n: nat)
    ensures
        digits_of(n).len() >= 1,
        forall|i: int| 0 <= i < digits_of(n).len() ==> is_digit(#[trigger] digits_of(n)[i]),
    decreases n,
{
    if n >= 10 {
        lemma_digits_len(n / 10);
    }
}

fn digit_of(d: u64) -> (c: char)
    requires
        d < 10,
    ensures
        c == digit_char(d as int),
{
    if d == 0 {
        '0'
    } else if d == 1 {
        '1'
    } else if d == 2 {
        '2'
    } else if d == 3 {
        '3'
    } else if d == 4 {
        '4'
    } else if d == 5 {
        '5'
    } else if d == 6 {
        '6'
    } else if d == 7 {
        '7'
    } else if d == 8 {
        '8'
    } else {
        '9'
    }
}

fn push_digits(out: &mut Vec<char>, n: u128)
    ensures
        final(out)@ == old(out)@ + digits_of(n as nat),
    decreases n,
{
    if n >= 10 {
        push_digits(out, n / 10);
    }
    out.push(digit_of((n % 10) as u64));
    proof {
        if n < 10 {
            assert(n % 10 == n);
        }
    }
}

fn push_seq(out: &mut Vec<char>, s: &Vec<char>, from: usize, to: usize)
    requires
        from <= to <= s@.len(),
    ensures
        final(out)@ == old(out)@ + s@.subrange(from as int, to as int),
{
    let mut i = from;
    while i < to
        invariant
            from <= i <= to,
            to <= s@.len(),
            out@ == old(out)@ + s@.subrange(from as int, i as int),
        decreases to - i,
    {
        out.push(s[i]);
        proof {
            assert(s@.subrange(from as int, i + 1) == s@.subrange(from as int, i as int).push(
                s@[i as int],
            ));
        }
        i = i + 1;
    }
}

fn push_zeros(out: &mut Vec<char>, n: i128)
    requires
        n <= 0x1_0000_0000_0000_0000_0000,
    ensures
        final(out)@ == old(out)@ + zeros(n as int),
{
    if n <= 0 {
        proof {
            assert(zeros(n as int) =~= Seq::<char>::empty());
            assert(out@ =~= old(out)@ + zeros(n as int));
        }
        return;
    }
    let mut i: i128 = 0;
    proof {
        assert(zeros(0) =~= Seq::<char>::empty());
        assert(out@ =~= old(out)@ + zeros(0));
    }
    while i < n
        invariant
            0 <= i,
            n > 0 ==> i <= n,
            out@ == old(out)@ + zeros(i as int),
        decreases n - i,
    {
        out.push('0');
        proof {
            assert(zeros(i + 1) =~= zeros(i as int).push('0'));
        }
        i = i + 1;
    }
}

fn push_exponent(out: &mut Vec<char>, e: i128)
    requires
        -0x1_0000_0000_0000_0000_0000 <= e <= 0x1_0000_0000_0000_0000_0000,
    ensures
        final(out)@ == old(out)@ + exponent_str(e as int),
{
    if e < 0 {
        out.push('-');
        let ghost mid = out@;
        push_digits(out, (-e) as u128);
        proof {
            assert(out@ == mid + digits_of((-e) as nat));
            assert(out@ =~= old(out)@ + exponent_str(e as int));
        }
    } else {
        push_digits(out, e as u128);
    }
}

/// `m` with its trailing zeros removed, and `d` lowered by as many.
fn normalize_exec(m: u64, d: u32) -> (r: (u64, i128))
    ensures
        (r.0 as nat, r.1 as int) == normalize(m as nat, d as int),
        d - 0x1_0000_0000_0000_0000 <= r.1 <= d,
{
    if m == 0 {
        return (0, 0);
    }
    let mut mm = m;
    let mut dd: i128 = d as i128;
    let ghost p: int = 1;
    while mm != 0 && mm % 10 == 0
        invariant
            normalize(mm as nat, dd as int) == normalize(m as nat, d as int),
            m == mm * p,
            p >= 1,
            mm == 0 ==> p == 1,
            d - p < dd <= d,
        decreases mm,
    {
        proof {
            let q = mm / 10;
            assert(mm == 10 * q);
            assert(m == q * (10 * p)) by (nonlinear_arith)
                requires
                    m == mm * p,
                    mm == 10 * q,
            ;
            assert(q >= 1);
            assert(p <= m) by (nonlinear_arith)
                requires
                    m == mm * p,
                    mm >= 1,
                    p >= 1,
            ;
        }
        mm = mm / 10;
        dd = dd - 1;
        proof {
            p = 10 * p;
        }
    }
    proof {
        if mm != 0 {
            assert(p <= m) by (nonlinear_arith)
                requires
                    m == mm * p,
                    mm >= 1,
                    p >= 1,
            ;
        }
    }
    (mm, dd)
}

/// The number written out in full; see [`raw_form`]. Also whether that is fixed notation,
/// and the exponent of the scientific form.
#[verifier::rlimit(40)]
fn build_raw(number: Decimal, sig_figs: usize) -> (r: (Vec<char>, bool, i128))
    requires
        1 <= sig_figs,
    ensures
        r.0@ == raw_form(number, sig_figs as int),
        ({
            let (m, d) = normalize(abs_int(number.mantissa as int) as nat, number.decimals as int);
            let k = digits_of(m).len() as int;
            &&& r.1 == fixed_notation(m, d, k, sig_figs as int)
            &&& r.2 == k - 1 - d
            &&& -0x4_0000_0000_0000_0000 < r.2 < 0x4_0000_0000_0000_0000
        }),
        1 <= r.0@.len() <= sig_figs + 50,
        r.0@[0] != 'e',
        all_glyphs(r.0@),
{
    let neg = number.mantissa < 0;
    let abs: u64 = if neg {
        (-(number.mantissa as i128)) as u64
    } else {
        number.mantissa as u64
    };
    let (m, d) = normalize_exec(abs, number.decimals);
    let mut ds: Vec<char> = Vec::new();
    push_digits(&mut ds, m as u128);
    proof {
        lemma_digits_len(m as nat);
        assert(ds@ == digits_of(m as nat));
        lemma_digits_bound(m as nat);
    }
    let k = ds.len() as i128;
    let n = sig_figs as i128;
    let fixed = m != 0 && k - d <= n && (k - 1 - d > -n || (k - 1 - d == -n && m != 1));
    let mut raw: Vec<char> = Vec::new();
    if neg {
        raw.push('-');
    }
    if fixed {
        if d <= 0 {
            push_seq(&mut raw, &ds, 0, ds.len());
            push_zeros(&mut raw, -d);
            proof {
                assert(ds@.subrange(0, ds@.len() as int) == ds@);
            }
        } else if k > d {
            let cut = (k - d) as usize;
            push_seq(&mut raw, &ds, 0, cut);
            raw.push('.');
            push_seq(&mut raw, &ds, cut, ds.len());
        } else {
            raw.push('0');
            raw.push('.');
            push_zeros(&mut raw, d - k);
            push_seq(&mut raw, &ds, 0, ds.len());
            proof {
                assert(ds@.subrange(0, ds@.len() as int) == ds@);
            }
        }
    } else {
        raw.push(ds[0]);
        if k > 1 {
            raw.push('.');
            push_seq(&mut raw, &ds, 1, ds.len());
        }
        raw.push('e');
        push_exponent(&mut raw, k - 1 - d);
    }
    proof {
        assert(raw@ =~= raw_form(number, sig_figs as int));
        lemma_raw_form_facts(number, sig_figs as int);
    }
    (raw, fixed, k - 1 - d)
}

/// A number has no more digits than it is large, plus one.
proof fn lemma_digits_bound(n: nat)
    ensures
        digits_of(n).len() <= n + 1,
    decreases n,
{
    if n >= 10 {
        lemma_digits_bound(n / 10);
    }
}

pub open spec fn pow10(k: nat) -> nat
    decreases k,
{
    if k == 0 {
        1
    } else {
        10 * pow10((k - 1) as nat)
    }
}

/// A number below `10^j` has at most `j` digits.
proof fn lemma_digits_count(n: nat, j: nat)
    requires
        j >= 1,
        n < pow10(j),
    ensures
        digits_of(n).len() <= j,
    decreases n,
{
    if n >= 10 {
        if j == 1 {
            assert(pow10(1) == 10) by {
                reveal_with_fuel(pow10, 2);
            }
        } else {
            let pj = pow10((j - 1) as nat);
            assert(pow10(j) == 10 * pj);
            assert(n / 10 < pj) by (nonlinear_arith)
                requires
                    n < 10 * pj,
            ;
            lemma_digits_count(n / 10, (j - 1) as nat);
        }
    }
}

/// Twenty digits hold any number below `2^66`.
proof fn lemma_digit_counts(m: nat)
    requires
        m < 0x4_0000_0000_0000_0000,
    ensures
        digits_of(m).len() <= 20,
{
    assert(pow10(20) == 100_000_000_000_000_000_000nat) by {
        reveal_with_fuel(pow10, 21);
    }
    lemma_digits_count(m, 20);
}

proof fn lemma_sig_end_bounds(s: Seq<char>, i: int, count: int, n: int)
    requires
        0 <= i <= s.len(),
    ensures
        i <= sig_end(s, i, count, n) <= s.len(),
    decreases s.len() - i,
{
    if !(i >= s.len() || count >= n || s[i] == 'e') {
        let c = if is_digit(s[i]) && (s[i] != '0' || count > 0) {
            1int
        } else {
            0
        };
        lemma_sig_end_bounds(s, i + 1, count + c, n);
    }
}

/// Every character of `s` has a glyph.
pub open spec fn all_glyphs(s: Seq<char>) -> bool {
    forall|i: int| 0 <= i < s.len() ==> crate::glyphs::has_glyph(#[trigger] s[i])
}

/// The full form of a number is short, does not start with its exponent, and every
/// character of it has a glyph.
#[verifier::rlimit(60)]
proof fn lemma_raw_form_facts(x: Decimal, n: int)
    requires
        1 <= n,
    ensures
        1 <= raw_form(x, n).len() <= n + 50,
        raw_form(x, n)[0] != 'e',
        all_glyphs(raw_form(x, n)),
        ({
            let (m, d) = normalize(abs_int(x.mantissa as int) as nat, x.decimals as int);
            let k = digits_of(m).len() as int;
            -0x4_0000_0000_0000_0000 < k - 1 - d < 0x4_0000_0000_0000_0000
        }),
{
    let (m, d) = normalize(abs_int(x.mantissa as int) as nat, x.decimals as int);
    lemma_normalize_bounds(abs_int(x.mantissa as int) as nat, x.decimals as int);
    let ds = digits_of(m);
    let k = ds.len() as int;
    lemma_digit_counts(m);
    lemma_digits_len(m);
    let e = k - 1 - d;
    let ae: int = if e < 0 {
        -e
    } else {
        e
    };
    lemma_digit_counts(ae as nat);
    lemma_digits_len(ae as nat);
    let raw = raw_form(x, n);
    assert forall|i: int| 0 <= i < raw.len() implies crate::glyphs::has_glyph(#[trigger] raw[i]) by {
        assert(raw[i] == '-' || raw[i] == '.' || raw[i] == 'e' || raw[i] == '0' || ds.contains(
            raw[i],
        ) || digits_of(ae as nat).contains(raw[i]));
    }
}

/// Normalizing keeps the mantissa below `2^64` and takes at most 64 from the exponent.
proof fn lemma_normalize_bounds(m: nat, d: int)
    requires
        m <= u64::MAX,
    ensures
        normalize(m, d).0 <= m,
        (if d < 0 {
            d
        } else {
            0
        }) - m <= normalize(m, d).1 <= if d > 0 {
            d
        } else {
            0
        },
    decreases m,
{
    if m != 0 && m % 10 == 0 {
        lemma_normalize_bounds(m / 10, d - 1);
    }
}

/// `raw` up to its `n`-th significant digit or its exponent.
fn cut_sig(raw: &Vec<char>, n: usize) -> (r: Vec<char>)
    ensures
        r@ == raw@.subrange(0, sig_end(raw@, 0, 0, n as int)),
        0 <= sig_end(raw@, 0, 0, n as int) <= raw@.len(),
        (raw@.len() >= 1 && raw@[0] != 'e' && n >= 1) ==> r@.len() >= 1,
        r@.len() <= raw@.len(),
{
    proof {
        lemma_sig_end_bounds(raw@, 0, 0, n as int);
        if raw@.len() >= 1 && raw@[0] != 'e' && n >= 1 {
            let c = if is_digit(raw@[0]) && raw@[0] != '0' {
                1int
            } else {
                0
            };
            lemma_sig_end_bounds(raw@, 1, c, n as int);
        }
    }
    let mut end: usize = 0;
    let mut count: usize = 0;
    while end < raw.len() && count < n && raw[end] != 'e'
        invariant
            end <= raw@.len(),
            sig_end(raw@, end as int, count as int, n as int) == sig_end(raw@, 0, 0, n as int),
            count <= end,
        decreases raw@.len() - end,
    {
        let c = raw[end];
        if '0' <= c && c <= '9' && (c != '0' || count > 0) {
            count = count + 1;
        }
        end = end + 1;
    }
    let mut out: Vec<char> = Vec::new();
    push_seq(&mut out, raw, 0, end);
    out
}

/// `s` without the zeros that end a decimal fraction; see [`trim_zeros`].
fn trim_fraction(s: Vec<char>) -> (r: Vec<char>)
    ensures
        r@ == trim_zeros(s@),
        r@.len() <= s@.len(),
        r@ == s@.subrange(0, r@.len() as int),
        s@.len() >= 1 ==> r@.len() >= 1,
{
    let mut out = s;
    let mut has_point = false;
    let mut i: usize = 0;
    while i < out.len()
        invariant
            i <= out@.len(),
            has_point == out@.subrange(0, i as int).contains('.'),
        decreases out@.len() - i,
    {
        proof {
            let a = out@.subrange(0, i as int);
            assert(out@.subrange(0, i + 1) == a.push(out@[i as int]));
            if a.push(out@[i as int]).contains('.') && out@[i as int] != '.' {
                let w = choose|w: int| 0 <= w < a.len() + 1 && a.push(out@[i as int])[w] == '.';
                assert(a[w] == '.');
            }
            if a.contains('.') {
                let w = choose|w: int| 0 <= w < a.len() && a[w] == '.';
                assert(a.push(out@[i as int])[w] == '.');
            }
            if out@[i as int] == '.' {
                assert(a.push(out@[i as int])[a.len() as int] == '.');
            }
        }
        if out[i] == '.' {
            has_point = true;
        }
        i = i + 1;
    }
    proof {
        assert(out@.subrange(0, out@.len() as int) == out@);
    }
    let ghost orig = out@;
    proof {
        assert(orig.subrange(0, orig.len() as int) == orig);
    }
    while has_point && out.len() > 1 && out[out.len() - 1] == '0'
        invariant
            has_point == out@.contains('.'),
            trim_zeros(out@) == trim_zeros(orig),
            out@.len() <= orig.len(),
            out@ == orig.subrange(0, out@.len() as int),
            orig.len() >= 1 ==> out@.len() >= 1,
        decreases out@.len(),
    {
        let ghost before = out@;
        out.pop();
        proof {
            assert(out@ == before.drop_last());
            assert(out@ =~= orig.subrange(0, out@.len() as int));
            let w = choose|w: int| 0 <= w < before.len() && before[w] == '.';
            assert(w < before.len() - 1);
            assert(out@[w] == '.');
        }
    }
    out
}

/// `number` written to `sig_figs` significant figures: fixed notation when
/// `0.1^sig_figs < |number| < 10^sig_figs`, else scientific with `e<exp>`; trailing zeros after
/// a decimal point are dropped, and an exponent of zero is left out.
pub fn num_to_str(number: Decimal, sig_figs: usize) -> (r: Vec<char>)
    requires
        1 <= sig_figs,
    ensures
        r@ == num_str(number, sig_figs as int),
        1 <= r@.len() <= sig_figs + 80,
        all_glyphs(r@),
{
    let (raw, fixed, exp) = build_raw(number, sig_figs);
    let cut = cut_sig(&raw, sig_figs);
    let ghost cutv = cut@;
    let mut out = trim_fraction(cut);
    proof {
        assert(all_glyphs(out@)) by {
            assert forall|i: int| 0 <= i < out@.len() implies crate::glyphs::has_glyph(
                #[trigger] out@[i],
            ) by {
                assert(out@[i] == cutv[i]);
                let e = sig_end(raw@, 0, 0, sig_figs as int);
                assert(cutv == raw@.subrange(0, e));
                assert(raw@.subrange(0, e)[i] == raw@[i]);
            }
        }
    }
    if !fixed && exp != 0 {
        out.push('e');
        let ghost mid = out@;
        push_exponent(&mut out, exp);
        proof {
            let ae: int = if exp < 0 { -exp } else { exp as int };
            lemma_digit_counts(ae as nat);
            lemma_digits_len(ae as nat);
            assert forall|i: int| 0 <= i < out@.len() implies crate::glyphs::has_glyph(
                #[trigger] out@[i],
            ) by {
                if i >= mid.len() {
                    assert(out@[i] == '-' || digits_of(ae as nat).contains(out@[i]));
                } else {
                    assert(out@[i] == mid[i]);
                }
            }
        }
    }
    proof {
        assert(out@ =~= num_str(number, sig_figs as int));
    }
    out
}

} // verus!
