//! Splitting, joining, replacing and ordering of character sequences.

use vstd::prelude::*;
use crate::text::{
    all_digits, decimal, digit_char, digits_value, is_digit, lemma_digits_value_mono, matches_at,
    occurs_at, push_all, push_decimal,
};

verus! {

// ---------------------------------------------------------------------------
// Splitting on a separator (what `str::split` with a non-empty pattern yields)
// ---------------------------------------------------------------------------

/// The pieces of `s[start..]` split on `sep`, where the piece being built began at
/// `start` and the scan for the next separator has reached `i`.
pub open spec fn split_from(s: Seq<char>, sep: Seq<char>, start: int, i: int) -> Seq<Seq<char>>
    decreases s.len() - i,
{
    if sep.len() == 0 || i < start || start < 0 || i + sep.len() > s.len() {
        seq![s.subrange(start, s.len() as int)]
    } else if occurs_at(s, sep, i) {
        seq![s.subrange(start, i)] + split_from(s, sep, i + sep.len(), i + sep.len())
    } else {
        split_from(s, sep, start, i + 1)
    }
}

/// The pieces of `s` between the non-overlapping occurrences of `sep`, scanned left to right.
pub open spec fn split_on(s: Seq<char>, sep: Seq<char>) -> Seq<Seq<char>> {
    split_from(s, sep, 0, 0)
}

/// `sep.len() > 0`; split `s` on `sep`.
pub fn split_by(s: &[char], sep: &[char]) -> (r: Vec<Vec<char>>)
    requires
        sep@.len() > 0,
    ensures
        r@.map_values(|v: Vec<char>| v@) == split_on(s@, sep@),
{
    let mut out: Vec<Vec<char>> = Vec::new();
    let mut cur: Vec<char> = Vec::new();
    let mut start: usize = 0;
    let mut i: usize = 0;
    while sep.len() <= s.len() - i
        invariant
            sep@.len() > 0,
            start <= i <= s@.len(),
            cur@ == s@.subrange(start as int, i as int),
            out@.map_values(|v: Vec<char>| v@) + split_from(s@, sep@, start as int, i as int)
                == split_on(s@, sep@),
        decreases s@.len() - i,
    {
        if matches_at(s, sep, i) {
            let ghost before = out@.map_values(|v: Vec<char>| v@);
            let piece = cur;
            out.push(piece);
            cur = Vec::new();
            i = i + sep.len();
            start = i;
            assert(out@.map_values(|v: Vec<char>| v@) =~= before.push(piece@));
            assert(before.push(piece@) + split_from(s@, sep@, start as int, i as int) =~= before + (
            seq![piece@] + split_from(s@, sep@, start as int, i as int)));
        } else {
            cur.push(s[i]);
            i = i + 1;
            assert(cur@ =~= s@.subrange(start as int, i as int));
        }
    }
    while i < s.len()
        invariant
            start <= i <= s@.len(),
            cur@ == s@.subrange(start as int, i as int),
        decreases s@.len() - i,
    {
        cur.push(s[i]);
        i = i + 1;
        assert(cur@ =~= s@.subrange(start as int, i as int));
    }
    let ghost before = out@.map_values(|v: Vec<char>| v@);
    out.push(cur);
    assert(out@.map_values(|v: Vec<char>| v@) =~= before.push(s@.subrange(start as int, s@.len() as int)));
    out
}

// ---------------------------------------------------------------------------
// Joining (what `[T]::join` with a separator gives)
// ---------------------------------------------------------------------------

/// The parts in order, with `sep` between each two neighbours.
pub open spec fn join(parts: Seq<Seq<char>>, sep: Seq<char>) -> Seq<char>
    decreases parts.len(),
{
    if parts.len() == 0 {
        Seq::empty()
    } else if parts.len() == 1 {
        parts[0]
    } else {
        join(parts.drop_last(), sep) + sep + parts.last()
    }
}

/// Append `join(parts, sep)` to `out`.
pub fn push_joined(out: &mut Vec<char>, parts: &Vec<Vec<char>>, sep: &[char])
    ensures
        final(out)@ == old(out)@ + join(parts@.map_values(|v: Vec<char>| v@), sep@),
{
    let ghost ps = parts@.map_values(|v: Vec<char>| v@);
    let mut i: usize = 0;
    while i < parts.len()
        invariant
            i <= parts@.len(),
            ps == parts@.map_values(|v: Vec<char>| v@),
            out@ == old(out)@ + join(ps.subrange(0, i as int), sep@),
        decreases parts@.len() - i,
    {
        if i > 0 {
            push_all(out, sep);
        }
        push_all(out, parts[i].as_slice());
        i = i + 1;
        proof {
            let sub = ps.subrange(0, i as int);
            assert(sub.drop_last() =~= ps.subrange(0, i - 1));
            assert(sub.last() == parts@[i - 1]@);
            if i == 1 {
                assert(join(ps.subrange(0, 0), sep@) =~= Seq::<char>::empty());
            }
        }
        assert(out@ =~= old(out)@ + join(ps.subrange(0, i as int), sep@));
    }
    assert(ps.subrange(0, parts@.len() as int) =~= ps);
}

// ---------------------------------------------------------------------------
// Replacing (what `str::replace` with a non-empty pattern gives)
// ---------------------------------------------------------------------------

/// `s[i..]` with each non-overlapping occurrence of `pat`, scanned left to right, replaced by `rep`.
pub open spec fn replace_from(s: Seq<char>, pat: Seq<char>, rep: Seq<char>, i: int) -> Seq<char>
    decreases s.len() - i,
{
    if pat.len() == 0 || i < 0 || i >= s.len() {
        Seq::empty()
    } else if occurs_at(s, pat, i) {
        rep + replace_from(s, pat, rep, i + pat.len())
    } else {
        seq![s[i]] + replace_from(s, pat, rep, i + 1)
    }
}

/// `s` with every non-overlapping occurrence of `pat` replaced by `rep`.
pub open spec fn replace_all(s: Seq<char>, pat: Seq<char>, rep: Seq<char>) -> Seq<char> {
    replace_from(s, pat, rep, 0)
}

/// Replace every non-overlapping occurrence of the non-empty `pat` in `s` by `rep`.
pub fn replace_chars(s: &[char], pat: &[char], rep: &[char]) -> (r: Vec<char>)
    requires
        pat@.len() > 0,
    ensures
        r@ == replace_all(s@, pat@, rep@),
{
    let mut out: Vec<char> = Vec::new();
    let mut i: usize = 0;
    while i < s.len()
        invariant
            pat@.len() > 0,
            i <= s@.len(),
            out@ + replace_from(s@, pat@, rep@, i as int) == replace_all(s@, pat@, rep@),
        decreases s@.len() - i,
    {
        let ghost before = out@;
        if matches_at(s, pat, i) {
            push_all(&mut out, rep);
            i = i + pat.len();
            assert(before + (rep@ + replace_from(s@, pat@, rep@, i as int)) =~= out@ + replace_from(
                s@,
                pat@,
                rep@,
                i as int,
            ));
        } else {
            out.push(s[i]);
            i = i + 1;
            assert(before + (seq![s@[i - 1]] + replace_from(s@, pat@, rep@, i as int)) =~= out@
                + replace_from(s@, pat@, rep@, i as int));
        }
    }
    assert(out@ + replace_from(s@, pat@, rep@, i as int) =~= out@);
    out
}

/// Where `pat` never occurs, replacing it changes nothing.
pub proof fn lemma_replace_absent(s: Seq<char>, pat: Seq<char>, rep: Seq<char>, i: int)
    requires
        pat.len() > 0,
        0 <= i <= s.len(),
        forall|j: int| i <= j ==> !occurs_at(s, pat, j),
    ensures
        replace_from(s, pat, rep, i) == s.subrange(i, s.len() as int),
    decreases s.len() - i,
{
    if i < s.len() {
        lemma_replace_absent(s, pat, rep, i + 1);
        assert(seq![s[i]] + s.subrange(i + 1, s.len() as int) =~= s.subrange(i, s.len() as int));
    } else {
        assert(s.subrange(i, s.len() as int) =~= Seq::<char>::empty());
    }
}

// ---------------------------------------------------------------------------
// Signed decimals
// ---------------------------------------------------------------------------

/// The decimal rendering of a signed integer (what `{}` prints).
pub open spec fn signed_decimal(n: int) -> Seq<char> {
    if n < 0 {
        seq!['-'] + decimal((-n) as nat)
    } else {
        decimal(n as nat)
    }
}

/// Append the decimal rendering of `n`.
pub fn push_signed_decimal(out: &mut Vec<char>, n: i64)
    ensures
        final(out)@ == old(out)@ + signed_decimal(n as int),
{
    if n < 0 {
        out.push('-');
        let m: u64 = (0i128 - (n as i128)) as u64;
        push_decimal(out, m);
        assert(final(out)@ =~= old(out)@ + signed_decimal(n as int));
    } else {
        push_decimal(out, n as u64);
    }
}

// ---------------------------------------------------------------------------
// Lexicographic order (how `String`s compare: by code point, then by length)
// ---------------------------------------------------------------------------

/// `a` sorts strictly before `b`.
pub open spec fn seq_less(a: Seq<char>, b: Seq<char>) -> bool
    decreases a.len(),
{
    if a.len() == 0 {
        b.len() > 0
    } else if b.len() == 0 {
        false
    } else if a[0] != b[0] {
        (a[0] as u32) < (b[0] as u32)
    } else {
        seq_less(a.drop_first(), b.drop_first())
    }
}

/// `seq_less` is irreflexive and asymmetric, and any two distinct sequences are ordered.
pub proof fn lemma_seq_less_total(a: Seq<char>, b: Seq<char>)
    ensures
        !seq_less(a, a),
        !(seq_less(a, b) && seq_less(b, a)),
        a != b ==> seq_less(a, b) || seq_less(b, a),
    decreases a.len(),
{
    if a.len() > 0 {
        lemma_seq_less_total(a.drop_first(), a.drop_first());
        if b.len() > 0 {
            lemma_seq_less_total(a.drop_first(), b.drop_first());
            if a[0] == b[0] {
                if a.drop_first() == b.drop_first() {
                    assert(a =~= seq![a[0]] + a.drop_first());
                    assert(b =~= seq![b[0]] + b.drop_first());
                    assert(a == b);
                }
            } else {
                vstd::utf8::char_u32_cast(a[0], a[0] as u32);
                vstd::utf8::char_u32_cast(b[0], b[0] as u32);
            }
        }
    } else if b.len() == 0 {
        assert(a =~= b);
    }
}

/// `seq_less` is transitive.
pub proof fn lemma_seq_less_trans(a: Seq<char>, b: Seq<char>, c: Seq<char>)
    requires
        seq_less(a, b),
        seq_less(b, c),
    ensures
        seq_less(a, c),
    decreases a.len(),
{
    if a.len() > 0 && b.len() > 0 && c.len() > 0 && a[0] == b[0] && b[0] == c[0] {
        lemma_seq_less_trans(a.drop_first(), b.drop_first(), c.drop_first());
    }
}

/// Compare two character sequences.
pub fn chars_less(a: &[char], b: &[char]) -> (r: bool)
    ensures
        r == seq_less(a@, b@),
{
    let mut i: usize = 0;
    assert(a@.subrange(0, a@.len() as int) =~= a@);
    assert(b@.subrange(0, b@.len() as int) =~= b@);
    while i < a.len() && i < b.len() && a[i] == b[i]
        invariant
            i <= a@.len(),
            i <= b@.len(),
            seq_less(a@, b@) == seq_less(a@.subrange(i as int, a@.len() as int), b@.subrange(
                i as int,
                b@.len() as int,
            )),
        decreases a@.len() - i,
    {
        let ghost sa = a@.subrange(i as int, a@.len() as int);
        let ghost sb = b@.subrange(i as int, b@.len() as int);
        i = i + 1;
        assert(sa.drop_first() =~= a@.subrange(i as int, a@.len() as int));
        assert(sb.drop_first() =~= b@.subrange(i as int, b@.len() as int));
    }
    let ghost sa = a@.subrange(i as int, a@.len() as int);
    let ghost sb = b@.subrange(i as int, b@.len() as int);
    if i == a.len() {
        i < b.len()
    } else if i == b.len() {
        false
    } else {
        assert(sa[0] == a@[i as int] && sb[0] == b@[i as int]);
        (a[i] as u32) < (b[i] as u32)
    }
}

/// The views of a list of character vectors.
pub open spec fn views(v: Seq<Vec<char>>) -> Seq<Seq<char>> {
    v.map_values(|x: Vec<char>| x@)
}

/// The views of a list of strings.
pub open spec fn string_views(v: Seq<String>) -> Seq<Seq<char>> {
    v.map_values(|s: String| s@)
}

/// Every element sorts strictly before the next: sorted, with no value twice.
pub open spec fn strictly_sorted(s: Seq<Seq<char>>) -> bool {
    forall|i: int, j: int| 0 <= i < j < s.len() ==> seq_less(#[trigger] s[i], #[trigger] s[j])
}

/// The values of `items`, sorted, each once (what `sort` then `dedup` leaves).
pub fn sorted_unique(items: &Vec<Vec<char>>) -> (r: Vec<Vec<char>>)
    ensures
        strictly_sorted(views(r@)),
        forall|x: Seq<char>|
            #[trigger] views(r@).contains(x) <==> views(items@).contains(x),
{
    let ghost src = views(items@);
    let mut out: Vec<Vec<char>> = Vec::new();
    let mut k: usize = 0;
    while k < items.len()
        invariant
            k <= items@.len(),
            src == views(items@),
            strictly_sorted(views(out@)),
            forall|x: Seq<char>|
                #[trigger] views(out@).contains(x) <==> src.subrange(0, k as int).contains(x),
        decreases items@.len() - k,
    {
        let x = &items[k];
        let ghost xv = x@;
        let ghost o = views(out@);
        // Find the first position whose value does not sort before x.
        let mut p: usize = 0;
        while p < out.len() && chars_less(out[p].as_slice(), x.as_slice())
            invariant
                p <= out@.len(),
                o == views(out@),
                xv == x@,
                forall|j: int| 0 <= j < p ==> seq_less(#[trigger] o[j], xv),
            decreases out@.len() - p,
        {
            p = p + 1;
        }
        let present = p < out.len() && !chars_less(x.as_slice(), out[p].as_slice());
        proof {
            if p < out@.len() {
                lemma_seq_less_total(o[p as int], xv);
            }
        }
        let ghost pre = src.subrange(0, k as int);
        let ghost post = src.subrange(0, k + 1);
        proof {
            assert(post =~= pre.push(xv));
        }
        if !present {
            out.insert(p, x.clone());
            proof {
                let n = views(out@);
                assert(n =~= o.insert(p as int, xv));
                assert forall|i: int, j: int| 0 <= i < j < n.len() implies seq_less(
                    #[trigger] n[i],
                    #[trigger] n[j],
                ) by {
                    if j < p {
                        assert(n[i] == o[i] && n[j] == o[j]);
                    } else if j == p {
                        assert(n[i] == o[i]);
                    } else if i == p {
                        assert(n[j] == o[j - 1]);
                        if j - 1 > p {
                            assert(seq_less(o[p as int], o[j - 1]));
                            lemma_seq_less_trans(xv, o[p as int], o[j - 1]);
                        }
                    } else if i < p {
                        assert(n[i] == o[i] && n[j] == o[j - 1]);
                    } else {
                        assert(n[i] == o[i - 1] && n[j] == o[j - 1]);
                    }
                }
                assert forall|y: Seq<char>| #[trigger] n.contains(y) <==> post.contains(y) by {
                    if n.contains(y) {
                        let j = choose|j: int| 0 <= j < n.len() && n[j] == y;
                        if j < p {
                            assert(o[j] == y);
                        } else if j > p {
                            assert(o[j - 1] == y);
                        }
                        if y != xv {
                            assert(o.contains(y));
                            assert(pre.contains(y));
                            let q = choose|q: int| 0 <= q < pre.len() && pre[q] == y;
                            assert(post[q] == y);
                        } else {
                            assert(post[k as int] == xv);
                        }
                    }
                    if post.contains(y) {
                        let j = choose|j: int| 0 <= j < post.len() && post[j] == y;
                        if j < k {
                            assert(pre[j] == y);
                            assert(o.contains(y));
                            let q = choose|q: int| 0 <= q < o.len() && o[q] == y;
                            if q < p {
                                assert(n[q] == y);
                            } else {
                                assert(n[q + 1] == y);
                            }
                        } else {
                            assert(n[p as int] == y);
                        }
                    }
                }
            }
        } else {
            proof {
                assert(o[p as int] == xv);
                assert forall|y: Seq<char>| #[trigger] o.contains(y) <==> post.contains(y) by {
                    if o.contains(y) {
                        assert(pre.contains(y));
                        let j = choose|j: int| 0 <= j < pre.len() && pre[j] == y;
                        assert(post[j] == y);
                    }
                    if post.contains(y) {
                        let j = choose|j: int| 0 <= j < post.len() && post[j] == y;
                        if j < k {
                            assert(pre[j] == y);
                        } else {
                            assert(o[p as int] == y);
                        }
                    }
                }
            }
        }
        k = k + 1;
    }
    assert(src.subrange(0, items@.len() as int) =~= src);
    out
}

// ---------------------------------------------------------------------------
// Signed integers read from text (what `str::parse::<i32>` does)
// ---------------------------------------------------------------------------

/// Why a string is not an integer of the requested type.
#[derive(Debug, Clone, Copy, PartialEq, Eq)]
pub enum IntErrorKind {
    Empty,
    InvalidDigit,
    PosOverflow,
    NegOverflow,
}

/// The value of the first `k` characters of the digit string `d`, read left to
/// right, negated when `neg`, stopping at the first character that is not a
/// digit or at the first step that leaves `lo..=hi`.
pub open spec fn scan_int(d: Seq<char>, neg: bool, lo: int, hi: int, k: int) -> Result<int, IntErrorKind>
    decreases k,
{
    if k <= 0 {
        Ok(0)
    } else {
        match scan_int(d, neg, lo, hi, k - 1) {
            Err(e) => Err(e),
            Ok(acc) => {
                if !is_digit(d[k - 1]) {
                    Err(IntErrorKind::InvalidDigit)
                } else {
                    let x = d[k - 1] as u32 - '0' as u32;
                    let v = if neg { acc * 10 - x } else { acc * 10 + x };
                    if v > hi {
                        Err(IntErrorKind::PosOverflow)
                    } else if v < lo {
                        Err(IntErrorKind::NegOverflow)
                    } else {
                        Ok(v)
                    }
                }
            },
        }
    }
}

/// Reading a signed integer in `lo..=hi` from `s`: an optional sign, then digits.
pub open spec fn parse_int(s: Seq<char>, lo: int, hi: int) -> Result<int, IntErrorKind> {
    if s.len() == 0 {
        Err(IntErrorKind::Empty)
    } else if (s[0] == '+' || s[0] == '-') && s.len() == 1 {
        Err(IntErrorKind::InvalidDigit)
    } else if s[0] == '+' {
        scan_int(s.drop_first(), false, lo, hi, s.len() - 1)
    } else if s[0] == '-' {
        scan_int(s.drop_first(), true, lo, hi, s.len() - 1)
    } else {
        scan_int(s, false, lo, hi, s.len() as int)
    }
}

/// The message that an integer parse error prints.
pub open spec fn int_error_text(k: IntErrorKind) -> Seq<char> {
    match k {
        IntErrorKind::Empty => "cannot parse integer from empty string"@,
        IntErrorKind::InvalidDigit => "invalid digit found in string"@,
        IntErrorKind::PosOverflow => "number too large to fit in target type"@,
        IntErrorKind::NegOverflow => "number too small to fit in target type"@,
    }
}

/// The message of an integer parse error.
pub fn int_error_message(k: IntErrorKind) -> (r: &'static str)
    ensures
        r@ == int_error_text(k),
{
    match k {
        IntErrorKind::Empty => "cannot parse integer from empty string",
        IntErrorKind::InvalidDigit => "invalid digit found in string",
        IntErrorKind::PosOverflow => "number too large to fit in target type",
        IntErrorKind::NegOverflow => "number too small to fit in target type",
    }
}

proof fn lemma_scan_int_err_sticky(d: Seq<char>, neg: bool, lo: int, hi: int, k: int, k2: int)
    requires
        0 <= k <= k2,
        scan_int(d, neg, lo, hi, k) is Err,
    ensures
        scan_int(d, neg, lo, hi, k2) == scan_int(d, neg, lo, hi, k),
    decreases k2 - k,
{
    if k < k2 {
        lemma_scan_int_err_sticky(d, neg, lo, hi, k, k2 - 1);
    }
}

/// Read an `i32` from `s`.
pub fn parse_i32_chars(s: &[char]) -> (r: Result<i32, IntErrorKind>)
    ensures
        match r {
            Ok(v) => parse_int(s@, i32::MIN as int, i32::MAX as int) == Ok::<int, IntErrorKind>(v as int),
            Err(e) => parse_int(s@, i32::MIN as int, i32::MAX as int) == Err::<int, IntErrorKind>(e),
        },
{
    let lo: i64 = i32::MIN as i64;
    let hi: i64 = i32::MAX as i64;
    if s.len() == 0 {
        return Err(IntErrorKind::Empty);
    }
    if (s[0] == '+' || s[0] == '-') && s.len() == 1 {
        return Err(IntErrorKind::InvalidDigit);
    }
    let neg = s[0] == '-';
    let start: usize = if s[0] == '+' || s[0] == '-' { 1 } else { 0 };
    let ghost d = s@.subrange(start as int, s@.len() as int);
    proof {
        if start == 1 {
            assert(d =~= s@.drop_first());
        } else {
            assert(d =~= s@);
        }
    }
    let mut acc: i64 = 0;
    let mut i: usize = start;
    while i < s.len()
        invariant
            start <= i <= s@.len(),
            d == s@.subrange(start as int, s@.len() as int),
            lo == i32::MIN as i64,
            hi == i32::MAX as i64,
            lo <= acc <= hi,
            scan_int(d, neg, lo as int, hi as int, i - start) == Ok::<int, IntErrorKind>(acc as int),
            parse_int(s@, lo as int, hi as int) == scan_int(d, neg, lo as int, hi as int, d.len() as int),
        decreases s@.len() - i,
    {
        let c = s[i];
        assert(d[i - start] == c);
        let cu = c as u32;
        if cu < '0' as u32 || cu > '9' as u32 {
            proof {
                lemma_scan_int_err_sticky(d, neg, lo as int, hi as int, i - start + 1, d.len() as int);
            }
            return Err(IntErrorKind::InvalidDigit);
        }
        let x: i64 = (cu - '0' as u32) as i64;
        let v: i64 = if neg { acc * 10 - x } else { acc * 10 + x };
        i = i + 1;
        if v > hi {
            proof {
                lemma_scan_int_err_sticky(d, neg, lo as int, hi as int, i - start, d.len() as int);
            }
            return Err(IntErrorKind::PosOverflow);
        }
        if v < lo {
            proof {
                lemma_scan_int_err_sticky(d, neg, lo as int, hi as int, i - start, d.len() as int);
            }
            return Err(IntErrorKind::NegOverflow);
        }
        acc = v;
    }
    Ok(acc as i32)
}

/// The decimal rendering of `n` is a non-empty digit string spelling `n`.
pub proof fn lemma_decimal_digits(n: nat)
    ensures
        decimal(n).len() >= 1,
        all_digits(decimal(n)),
        digits_value(decimal(n)) == n,
    decreases n,
{
    let d = (n % 10) as int;
    assert(digit_char(d) as u32 - '0' as u32 == d && is_digit(digit_char(d))) by {
        assert(0 <= d < 10);
    }
    if n >= 10 {
        lemma_decimal_digits(n / 10);
        let s = decimal(n);
        assert(s.drop_last() =~= decimal(n / 10));
        assert(s.last() == digit_char(d));
        assert((n / 10) * 10 + n % 10 == n) by (nonlinear_arith);
        assert(digits_value(s) == digits_value(s.drop_last()) * 10 + ((s.last() as u32 - '0' as u32) as nat));
        assert forall|i: int| 0 <= i < s.len() implies is_digit(#[trigger] s[i]) by {
            if i < s.len() - 1 {
                assert(s[i] == decimal(n / 10)[i]);
            }
        }
    } else {
        assert(decimal(n).drop_last() =~= Seq::<char>::empty());
        assert(n % 10 == n);
        assert(digits_value(Seq::<char>::empty()) == 0);
        let s = decimal(n);
        assert(digits_value(s) == digits_value(s.drop_last()) * 10 + ((s.last() as u32 - '0' as u32) as nat));
    }
}

/// Reading a digit string whose value fits gives that value (negated when `neg`).
pub proof fn lemma_scan_digits(d: Seq<char>, neg: bool, lo: int, hi: int, k: int)
    requires
        all_digits(d),
        0 <= k <= d.len(),
        lo <= 0 <= hi,
        neg ==> -digits_value(d) >= lo,
        !neg ==> digits_value(d) <= hi,
    ensures
        scan_int(d, neg, lo, hi, k) == Ok::<int, IntErrorKind>(
            if neg { -digits_value(d.subrange(0, k)) } else { digits_value(d.subrange(0, k)) as int },
        ),
    decreases k,
{
    if k > 0 {
        lemma_scan_digits(d, neg, lo, hi, k - 1);
        assert(d.subrange(0, k).drop_last() =~= d.subrange(0, k - 1));
        assert(d.subrange(0, k).last() == d[k - 1]);
        lemma_digits_value_mono(d, k, d.len() as int);
        assert(d.subrange(0, d.len() as int) =~= d);
        assert(is_digit(d[k - 1]));
    } else {
        assert(d.subrange(0, 0) =~= Seq::<char>::empty());
    }
}

/// Reading back the decimal rendering of an `i32` gives it.
pub proof fn lemma_parse_signed_decimal(v: int)
    requires
        i32::MIN <= v <= i32::MAX,
    ensures
        parse_int(signed_decimal(v), i32::MIN as int, i32::MAX as int) == Ok::<int, IntErrorKind>(v),
{
    if v < 0 {
        let m = (-v) as nat;
        lemma_decimal_digits(m);
        let s = signed_decimal(v);
        assert(s.drop_first() =~= decimal(m));
        lemma_scan_digits(decimal(m), true, i32::MIN as int, i32::MAX as int, decimal(m).len() as int);
        assert(decimal(m).subrange(0, decimal(m).len() as int) =~= decimal(m));
    } else {
        let m = v as nat;
        lemma_decimal_digits(m);
        assert(is_digit(decimal(m)[0]));
        lemma_scan_digits(decimal(m), false, i32::MIN as int, i32::MAX as int, decimal(m).len() as int);
        assert(decimal(m).subrange(0, decimal(m).len() as int) =~= decimal(m));
    }
}

} // verus!
