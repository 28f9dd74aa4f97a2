//! Case-insensitive text handling for entry names over their UTF-8 bytes:
//! natural ordering — runs of decimal digits compare as numbers, or digit by
//! digit where a run has a leading zero, and everything else byte by byte
//! with ASCII letters folded to lower case — and case-folded suffix tests.
//!
//! The ordering is deliberately defined over raw UTF-8 bytes: only ASCII
//! letters are case-folded, non-ASCII characters compare by code point, and
//! whitespace is compared like any other character rather than skipped, so
//! that the order is an exactly specified, machine-independent function of
//! the name.

use vstd::prelude::*;
use vstd::utf8::encode_utf8;

verus! {

/// Whether `b` is the ASCII code of a decimal digit.
pub open spec fn is_digit(b: u8) -> bool {
    48 <= b && b <= 57
}

/// ASCII upper-case letters folded to lower case; every other byte unchanged.
pub open spec fn fold_byte(b: u8) -> u8 {
    if 65 <= b && b <= 90 {
        (b + 32) as u8
    } else {
        b
    }
}

/// Length of the leading run of digit bytes.
pub open spec fn run_len(s: Seq<u8>) -> nat
    decreases s.len(),
{
    if s.len() > 0 && is_digit(s[0]) {
        1 + run_len(s.drop_first())
    } else {
        0
    }
}

/// Three-way byte-by-byte comparison: negative, zero or positive as the first
/// differing byte decides; sequences of equal length only.
pub open spec fn lex_cmp(a: Seq<u8>, b: Seq<u8>) -> int
    decreases a.len(),
{
    if a.len() == 0 || b.len() == 0 {
        0
    } else if a[0] < b[0] {
        -1
    } else if a[0] > b[0] {
        1
    } else {
        lex_cmp(a.drop_first(), b.drop_first())
    }
}

/// Full left-to-right comparison of two digit runs; where one run is a
/// prefix of the other, the shorter comes first.
pub open spec fn lexf_cmp(a: Seq<u8>, b: Seq<u8>) -> int
    decreases a.len() + b.len(),
{
    if a.len() == 0 && b.len() == 0 {
        0
    } else if a.len() == 0 {
        -1
    } else if b.len() == 0 {
        1
    } else if a[0] < b[0] {
        -1
    } else if a[0] > b[0] {
        1
    } else {
        lexf_cmp(a.drop_first(), b.drop_first())
    }
}

/// Three-way comparison of two runs of digit bytes. Runs without leading
/// zeros compare as numbers: first by length, then digit by digit. Where
/// either run starts with a zero the runs are read left-aligned, digit by
/// digit, as after a decimal point: `015` < `15` and `1.002` < `1.01`.
pub open spec fn num_cmp(a: Seq<u8>, b: Seq<u8>) -> int {
    if (a.len() > 0 && a[0] == 48) || (b.len() > 0 && b[0] == 48) {
        lexf_cmp(a, b)
    } else if a.len() < b.len() {
        -1
    } else if a.len() > b.len() {
        1
    } else {
        lex_cmp(a, b)
    }
}

/// Three-way natural comparison of two byte sequences: maximal digit runs
/// compare as numbers, other positions by case-folded byte. Folding is
/// ASCII-only and whitespace is not skipped, by design.
pub open spec fn nat_cmp(a: Seq<u8>, b: Seq<u8>) -> int
    decreases a.len() + b.len(),
{
    if a.len() == 0 && b.len() == 0 {
        0
    } else if a.len() == 0 {
        -1
    } else if b.len() == 0 {
        1
    } else if is_digit(a[0]) && is_digit(b[0]) {
        proof {
            lemma_run_len(a);
            lemma_run_len(b);
        }
        let ra = run_len(a) as int;
        let rb = run_len(b) as int;
        let c = num_cmp(a.take(ra), b.take(rb));
        if c != 0 {
            c
        } else {
            nat_cmp(a.skip(ra), b.skip(rb))
        }
    } else if fold_byte(a[0]) < fold_byte(b[0]) {
        -1
    } else if fold_byte(a[0]) > fold_byte(b[0]) {
        1
    } else {
        nat_cmp(a.drop_first(), b.drop_first())
    }
}

/// Natural "less than or equal" on the character sequences of two names.
pub open spec fn nat_leq(a: Seq<char>, b: Seq<char>) -> bool {
    nat_cmp(encode_utf8(a), encode_utf8(b)) <= 0
}

/// Every neighbouring pair of names is in natural order.
pub open spec fn natural_sorted(s: Seq<String>) -> bool {
    forall|i: int| 0 <= i < s.len() - 1 ==> nat_leq(#[trigger] s[i]@, s[i + 1]@)
}

/// The leading digit run: its length is bounded, it holds digits only, and it
/// is maximal.
pub proof fn lemma_run_len(s: Seq<u8>)
    ensures
        run_len(s) <= s.len(),
        forall|k: int| 0 <= k < run_len(s) ==> is_digit(#[trigger] s[k]),
        run_len(s) < s.len() ==> !is_digit(s[run_len(s) as int]),
        s.len() > 0 && is_digit(s[0]) ==> run_len(s) >= 1,
    decreases s.len(),
{
    if s.len() > 0 && is_digit(s[0]) {
        lemma_run_len(s.drop_first());
        assert forall|k: int| 0 <= k < run_len(s) implies is_digit(#[trigger] s[k]) by {
            if k > 0 {
                assert(is_digit(s.drop_first()[k - 1]));
            }
        }
    }
}

/// Exchanging the arguments of `lex_cmp` negates its result.
pub proof fn lemma_lex_flip(a: Seq<u8>, b: Seq<u8>)
    ensures
        lex_cmp(b, a) == -lex_cmp(a, b),
        -1 <= lex_cmp(a, b) <= 1,
    decreases a.len(),
{
    if a.len() > 0 && b.len() > 0 && a[0] == b[0] {
        lemma_lex_flip(a.drop_first(), b.drop_first());
    }
}

/// Exchanging the arguments of `lexf_cmp` negates its result.
pub proof fn lemma_lexf_flip(a: Seq<u8>, b: Seq<u8>)
    ensures
        lexf_cmp(b, a) == -lexf_cmp(a, b),
        -1 <= lexf_cmp(a, b) <= 1,
    decreases a.len() + b.len(),
{
    if a.len() > 0 && b.len() > 0 && a[0] == b[0] {
        lemma_lexf_flip(a.drop_first(), b.drop_first());
    }
}

/// Exchanging the arguments of `num_cmp` negates its result.
pub proof fn lemma_num_flip(a: Seq<u8>, b: Seq<u8>)
    ensures
        num_cmp(b, a) == -num_cmp(a, b),
        -1 <= num_cmp(a, b) <= 1,
{
    lemma_lexf_flip(a, b);
    lemma_lex_flip(a, b);
}

/// On equal-length sequences, `lex_cmp` is zero exactly on equal sequences.
proof fn lemma_lex_zero(a: Seq<u8>, b: Seq<u8>)
    requires
        a.len() == b.len(),
    ensures
        lex_cmp(a, b) == 0 ==> a =~= b,
    decreases a.len(),
{
    if a.len() > 0 && a[0] == b[0] {
        lemma_lex_zero(a.drop_first(), b.drop_first());
        if lex_cmp(a, b) == 0 {
            assert forall|k: int| 0 <= k < a.len() implies a[k] == b[k] by {
                if k > 0 {
                    assert(a.drop_first()[k - 1] == b.drop_first()[k - 1]);
                }
            }
        }
    }
}

/// `lexf_cmp` is zero exactly on equal sequences.
proof fn lemma_lexf_zero(a: Seq<u8>, b: Seq<u8>)
    ensures
        lexf_cmp(a, b) == 0 ==> a =~= b,
    decreases a.len() + b.len(),
{
    if a.len() > 0 && b.len() > 0 && a[0] == b[0] {
        lemma_lexf_zero(a.drop_first(), b.drop_first());
        if lexf_cmp(a, b) == 0 {
            assert forall|k: int| 0 <= k < a.len() implies a[k] == b[k] by {
                if k > 0 {
                    assert(a.drop_first()[k - 1] == b.drop_first()[k - 1]);
                }
            }
        }
    }
}

/// `lex_cmp` orders transitively (equal-length sequences).
proof fn lemma_lex_trans(a: Seq<u8>, b: Seq<u8>, c: Seq<u8>)
    requires
        a.len() == b.len() == c.len(),
        lex_cmp(a, b) <= 0,
        lex_cmp(b, c) <= 0,
    ensures
        lex_cmp(a, c) <= 0,
    decreases a.len(),
{
    if a.len() > 0 && a[0] == b[0] && b[0] == c[0] {
        lemma_lex_trans(a.drop_first(), b.drop_first(), c.drop_first());
    }
}

/// `lexf_cmp` orders transitively.
proof fn lemma_lexf_trans(a: Seq<u8>, b: Seq<u8>, c: Seq<u8>)
    requires
        lexf_cmp(a, b) <= 0,
        lexf_cmp(b, c) <= 0,
    ensures
        lexf_cmp(a, c) <= 0,
    decreases a.len() + b.len() + c.len(),
{
    if a.len() > 0 && b.len() > 0 && c.len() > 0 && a[0] == b[0] && b[0] == c[0] {
        lemma_lexf_trans(a.drop_first(), b.drop_first(), c.drop_first());
    }
}

/// `num_cmp` is zero only on equal runs.
proof fn lemma_num_zero(a: Seq<u8>, b: Seq<u8>)
    ensures
        num_cmp(a, b) == 0 ==> a =~= b,
{
    if (a.len() > 0 && a[0] == 48) || (b.len() > 0 && b[0] == 48) {
        lemma_lexf_zero(a, b);
    } else if a.len() == b.len() {
        lemma_lex_zero(a, b);
    }
}

/// `num_cmp` orders digit runs transitively.
proof fn lemma_num_trans(a: Seq<u8>, b: Seq<u8>, c: Seq<u8>)
    requires
        a.len() > 0 && is_digit(a[0]),
        b.len() > 0 && is_digit(b[0]),
        c.len() > 0 && is_digit(c[0]),
        num_cmp(a, b) <= 0,
        num_cmp(b, c) <= 0,
    ensures
        num_cmp(a, c) <= 0,
{
    let za = a[0] == 48;
    let zb = b[0] == 48;
    let zc = c[0] == 48;
    if za || zc {
        // The comparison of `a` and `c` is left-aligned.
        if zc {
            // b <= c forces b to start with a zero as well.
            if !zb {
                assert(lexf_cmp(b, c) == 1);
            }
            lemma_lexf_trans(a, b, c);
        } else {
            // `a` starts with a zero and `c` does not.
            assert(a[0] == 48 && c[0] >= 49);
            assert(lexf_cmp(a, c) == -1);
        }
    } else if zb {
        // b <= c with c not zero-leading makes lexf(b, c) start 48 vs >= 49,
        // fine; but a <= b with a not zero-leading gives lexf(a, b) == 1.
        assert(a[0] >= 49 && b[0] == 48);
        assert(lexf_cmp(a, b) == 1);
    } else {
        // All three runs are free of leading zeros: length, then bytes.
        if a.len() == b.len() && b.len() == c.len() {
            lemma_lex_trans(a, b, c);
        }
    }
}

/// Strict `num_cmp` ordering carries through `num_cmp` equalities and
/// compositions: the three-run form needed below.
proof fn lemma_num_trans_strict(a: Seq<u8>, b: Seq<u8>, c: Seq<u8>)
    requires
        a.len() > 0 && is_digit(a[0]),
        b.len() > 0 && is_digit(b[0]),
        c.len() > 0 && is_digit(c[0]),
        num_cmp(a, b) < 0,
        num_cmp(b, c) < 0,
    ensures
        num_cmp(a, c) < 0,
{
    lemma_num_trans(a, b, c);
    if num_cmp(a, c) == 0 {
        lemma_num_zero(a, c);
        assert(a =~= c);
        lemma_num_flip(a, b);
        lemma_num_trans(c, a, b);
    }
}

/// Exchanging the arguments of `nat_cmp` negates its result, and zero is
/// possible only where the case-folded bytes agree throughout.
pub proof fn lemma_nat_flip(a: Seq<u8>, b: Seq<u8>)
    ensures
        nat_cmp(b, a) == -nat_cmp(a, b),
        -1 <= nat_cmp(a, b) <= 1,
    decreases a.len() + b.len(),
{
    if a.len() == 0 || b.len() == 0 {
    } else if is_digit(a[0]) && is_digit(b[0]) {
        lemma_run_len(a);
        lemma_run_len(b);
        let ra = run_len(a) as int;
        let rb = run_len(b) as int;
        lemma_num_flip(a.take(ra), b.take(rb));
        lemma_nat_flip(a.skip(ra), b.skip(rb));
    } else {
        lemma_nat_flip(a.drop_first(), b.drop_first());
    }
}

/// Dropping the first element of a suffix advances the suffix by one.
proof fn lemma_skip_succ(s: Seq<u8>, i: int)
    requires
        0 <= i < s.len(),
    ensures
        s.skip(i).drop_first() =~= s.skip(i + 1),
{
}

/// End of the run of digit bytes that starts at `from`.
fn digit_run_end(s: &Vec<u8>, from: usize) -> (r: usize)
    requires
        from <= s@.len(),
    ensures
        from <= r <= s@.len(),
        r - from == run_len(s@.skip(from as int)),
{
    let mut i = from;
    while i < s.len() && 48 <= s[i] && s[i] <= 57
        invariant
            from <= i <= s@.len(),
            run_len(s@.skip(from as int)) == i - from + run_len(s@.skip(i as int)),
        decreases s@.len() - i,
    {
        proof {
            lemma_skip_succ(s@, i as int);
            lemma_run_len(s@.skip(i as int + 1));
        }
        i = i + 1;
    }
    proof {
        lemma_run_len(s@.skip(from as int));
    }
    i
}

/// `lex_cmp` of two equal-length ranges, one byte at a time.
fn lex_cmp_range(a: &Vec<u8>, a0: usize, a1: usize, b: &Vec<u8>, b0: usize, b1: usize) -> (r: i8)
    requires
        a0 <= a1 <= a@.len(),
        b0 <= b1 <= b@.len(),
        a1 - a0 == b1 - b0,
    ensures
        r as int == lex_cmp(a@.subrange(a0 as int, a1 as int), b@.subrange(b0 as int, b1 as int)),
        -1 <= r <= 1,
{
    let mut k: usize = 0;
    while a0 + k < a1
        invariant
            a0 + k <= a1 <= a@.len(),
            b0 + k <= b1 <= b@.len(),
            a1 - a0 == b1 - b0,
            lex_cmp(a@.subrange(a0 as int, a1 as int), b@.subrange(b0 as int, b1 as int))
                == lex_cmp(
                a@.subrange(a0 + k as int, a1 as int),
                b@.subrange(b0 + k as int, b1 as int),
            ),
        decreases a1 - a0 - k,
    {
        let ca = a[a0 + k];
        let cb = b[b0 + k];
        if ca < cb {
            return -1;
        }
        if ca > cb {
            return 1;
        }
        proof {
            assert(a@.subrange(a0 + k as int, a1 as int).drop_first() =~= a@.subrange(
                a0 + k as int + 1,
                a1 as int,
            ));
            assert(b@.subrange(b0 + k as int, b1 as int).drop_first() =~= b@.subrange(
                b0 + k as int + 1,
                b1 as int,
            ));
        }
        k = k + 1;
    }
    0
}

/// `lexf_cmp` of the ranges `a[a0..a1]` and `b[b0..b1]`.
fn lexf_cmp_range(a: &Vec<u8>, a0: usize, a1: usize, b: &Vec<u8>, b0: usize, b1: usize) -> (r: i8)
    requires
        a0 <= a1 <= a@.len(),
        b0 <= b1 <= b@.len(),
    ensures
        r as int == lexf_cmp(a@.subrange(a0 as int, a1 as int), b@.subrange(b0 as int, b1 as int)),
        -1 <= r <= 1,
{
    let mut k: usize = 0;
    while a0 + k < a1 && b0 + k < b1
        invariant
            a0 + k <= a1 <= a@.len(),
            b0 + k <= b1 <= b@.len(),
            lexf_cmp(a@.subrange(a0 as int, a1 as int), b@.subrange(b0 as int, b1 as int))
                == lexf_cmp(
                a@.subrange(a0 + k as int, a1 as int),
                b@.subrange(b0 + k as int, b1 as int),
            ),
        decreases a1 - a0 - k,
    {
        let ca = a[a0 + k];
        let cb = b[b0 + k];
        if ca < cb {
            return -1;
        }
        if ca > cb {
            return 1;
        }
        proof {
            assert(a@.subrange(a0 + k as int, a1 as int).drop_first() =~= a@.subrange(
                a0 + k as int + 1,
                a1 as int,
            ));
            assert(b@.subrange(b0 + k as int, b1 as int).drop_first() =~= b@.subrange(
                b0 + k as int + 1,
                b1 as int,
            ));
        }
        k = k + 1;
    }
    if a0 + k < a1 {
        1
    } else if b0 + k < b1 {
        -1
    } else {
        0
    }
}

/// `num_cmp` of the digit runs `a[a0..a1]` and `b[b0..b1]`.
fn num_cmp_range(a: &Vec<u8>, a0: usize, a1: usize, b: &Vec<u8>, b0: usize, b1: usize) -> (r: i8)
    requires
        a0 <= a1 <= a@.len(),
        b0 <= b1 <= b@.len(),
    ensures
        r as int == num_cmp(a@.subrange(a0 as int, a1 as int), b@.subrange(b0 as int, b1 as int)),
        -1 <= r <= 1,
{
    let left_aligned = (a0 < a1 && a[a0] == 48) || (b0 < b1 && b[b0] == 48);
    if left_aligned {
        lexf_cmp_range(a, a0, a1, b, b0, b1)
    } else if a1 - a0 < b1 - b0 {
        -1
    } else if a1 - a0 > b1 - b0 {
        1
    } else {
        lex_cmp_range(a, a0, a1, b, b0, b1)
    }
}

/// `nat_cmp` of the suffixes that start at `i` and `j`.
fn nat_cmp_from(a: &Vec<u8>, i: usize, b: &Vec<u8>, j: usize) -> (r: i8)
    requires
        i <= a@.len(),
        j <= b@.len(),
    ensures
        r as int == nat_cmp(a@.skip(i as int), b@.skip(j as int)),
        -1 <= r <= 1,
    decreases a@.len() - i + b@.len() - j,
{
    let ghost sa = a@.skip(i as int);
    let ghost sb = b@.skip(j as int);
    if i == a.len() && j == b.len() {
        0
    } else if i == a.len() {
        assert(sb.len() > 0);
        -1
    } else if j == b.len() {
        1
    } else {
        let ca = a[i];
        let cb = b[j];
        if 48 <= ca && ca <= 57 && 48 <= cb && cb <= 57 {
            let ra = digit_run_end(a, i);
            let rb = digit_run_end(b, j);
            proof {
                lemma_run_len(sa);
                lemma_run_len(sb);
                assert(sa.take(run_len(sa) as int) =~= a@.subrange(i as int, ra as int));
                assert(sb.take(run_len(sb) as int) =~= b@.subrange(j as int, rb as int));
                assert(sa.skip(run_len(sa) as int) =~= a@.skip(ra as int));
                assert(sb.skip(run_len(sb) as int) =~= b@.skip(rb as int));
            }
            let c = num_cmp_range(a, i, ra, b, j, rb);
            if c != 0 {
                c
            } else {
                nat_cmp_from(a, ra, b, rb)
            }
        } else {
            let fa = if 65 <= ca && ca <= 90 {
                ca + 32
            } else {
                ca
            };
            let fb = if 65 <= cb && cb <= 90 {
                cb + 32
            } else {
                cb
            };
            if fa < fb {
                -1
            } else if fa > fb {
                1
            } else {
                proof {
                    lemma_skip_succ(a@, i as int);
                    lemma_skip_succ(b@, j as int);
                }
                nat_cmp_from(a, i + 1, b, j + 1)
            }
        }
    }
}

/// Three-way natural comparison of two names; the result mirrors `nat_cmp`
/// over their UTF-8 encodings.
pub fn natural_compare(a: &String, b: &String) -> (r: i8)
    ensures
        r as int == nat_cmp(encode_utf8(a@), encode_utf8(b@)),
        -1 <= r <= 1,
{
    let av = a.as_str().as_bytes_vec();
    let bv = b.as_str().as_bytes_vec();
    proof {
        assert(av@.skip(0) =~= av@);
        assert(bv@.skip(0) =~= bv@);
    }
    nat_cmp_from(&av, 0, &bv, 0)
}

/// The natural order is transitive.
pub proof fn lemma_nat_trans(a: Seq<u8>, b: Seq<u8>, c: Seq<u8>)
    requires
        nat_cmp(a, b) <= 0,
        nat_cmp(b, c) <= 0,
    ensures
        nat_cmp(a, c) <= 0,
    decreases a.len() + b.len() + c.len(),
{
    if a.len() == 0 {
    } else if b.len() == 0 {
        assert(nat_cmp(a, b) == 1);
    } else if c.len() == 0 {
        assert(nat_cmp(b, c) == 1);
    } else {
        let da = is_digit(a[0]);
        let db = is_digit(b[0]);
        let dc = is_digit(c[0]);
        let fa = fold_byte(a[0]);
        let fb = fold_byte(b[0]);
        let fc = fold_byte(c[0]);
        if da && db && dc {
            lemma_run_len(a);
            lemma_run_len(b);
            lemma_run_len(c);
            let ra = run_len(a) as int;
            let rb = run_len(b) as int;
            let rc = run_len(c) as int;
            let ka = a.take(ra);
            let kb = b.take(rb);
            let kc = c.take(rc);
            let c1 = num_cmp(ka, kb);
            let c2 = num_cmp(kb, kc);
            if c1 == 0 && c2 == 0 {
                lemma_num_zero(ka, kb);
                lemma_num_zero(kb, kc);
                assert(ka == kb && kb == kc);
                assert(ka.len() == ra && kb.len() == rb && kc.len() == rc);
                lemma_nat_trans(a.skip(ra), b.skip(rb), c.skip(rc));
            } else if c1 == 0 {
                lemma_num_zero(ka, kb);
                assert(ka == kb);
                assert(num_cmp(ka, kc) == c2);
            } else if c2 == 0 {
                lemma_num_zero(kb, kc);
                assert(kb == kc);
                assert(num_cmp(ka, kc) == c1);
            } else {
                lemma_num_trans_strict(ka, kb, kc);
            }
        } else if da && db && !dc {
            assert(fb == b[0] && 48 <= fb <= 57);
            assert(fb < fc);
            assert(!is_digit(fc));
            assert(fc > 57);
            assert(fa == a[0] && fa <= 57);
        } else if da && !db && dc {
            assert(fa == a[0] && fa < fb);
            assert(fb < fc && fc == c[0] && fc <= 57);
            assert(!is_digit(fb));
            assert(false);
        } else if !da && db && dc {
            assert(fa < fb && fb == b[0] && fb <= 57);
            assert(!is_digit(fa));
            assert(fa < 48);
            assert(fc == c[0] && fc >= 48);
        } else if da && !db && !dc {
            assert(fa == a[0] && fa < fb);
            if fb == fc {
            } else {
                assert(fb < fc);
            }
        } else if !da && db && !dc {
            assert(fa < fb && fb == b[0]);
            assert(fb < fc);
        } else if !da && !db && dc {
            assert(fb < fc);
            if fa == fb {
            } else {
                assert(fa < fb);
            }
        } else {
            if fa == fb && fb == fc {
                lemma_nat_trans(a.drop_first(), b.drop_first(), c.drop_first());
            }
        }
    }
}

/// Every name compares equal to itself.
pub proof fn lemma_nat_refl(a: Seq<u8>)
    ensures
        nat_cmp(a, a) == 0,
{
    lemma_nat_flip(a, a);
}

/// In a list whose neighbouring pairs are in natural order, every pair is:
/// adjacent sortedness is full sortedness.
pub proof fn lemma_natural_sorted_total(s: Seq<String>)
    requires
        natural_sorted(s),
    ensures
        forall|i: int, j: int| 0 <= i <= j < s.len() ==> nat_leq(#[trigger] s[i]@, #[trigger] s[j]@),
{
    assert forall|i: int, j: int| 0 <= i <= j < s.len() implies nat_leq(
        #[trigger] s[i]@,
        #[trigger] s[j]@,
    ) by {
        lemma_sorted_pair(s, i, j);
    }
}

/// Two positions of an adjacently sorted list are in order.
proof fn lemma_sorted_pair(s: Seq<String>, i: int, j: int)
    requires
        natural_sorted(s),
        0 <= i <= j < s.len(),
    ensures
        nat_leq(s[i]@, s[j]@),
    decreases j - i,
{
    if i == j {
        lemma_nat_refl(encode_utf8(s[i]@));
    } else {
        lemma_sorted_pair(s, i, j - 1);
        assert(nat_leq(s[j - 1]@, s[j]@));
        lemma_nat_trans(encode_utf8(s[i]@), encode_utf8(s[j - 1]@), encode_utf8(s[j]@));
    }
}

/// Whether `s`, with ASCII letters folded to lower case, ends in `suffix`.
pub open spec fn has_suffix_fold(s: Seq<u8>, suffix: Seq<u8>) -> bool {
    s.len() >= suffix.len() && forall|k: int|
        0 <= k < suffix.len() ==> fold_byte(#[trigger] s[s.len() - suffix.len() + k]) == suffix[k]
}

/// ASCII upper-case letters folded to lower case; every other byte unchanged.
pub fn fold_byte_of(b: u8) -> (r: u8)
    ensures
        r == fold_byte(b),
{
    if 65 <= b && b <= 90 {
        b + 32
    } else {
        b
    }
}

/// Whether the name in `b`, case-folded, ends in the bytes of `suffix`.
pub fn has_suffix(b: &Vec<u8>, suffix: &Vec<u8>) -> (r: bool)
    ensures
        r == has_suffix_fold(b@, suffix@),
{
    let n = b.len();
    let m = suffix.len();
    if n < m {
        return false;
    }
    let mut k: usize = 0;
    while k < m
        invariant
            0 <= k <= m <= n == b@.len(),
            m == suffix@.len(),
            forall|t: int| 0 <= t < k ==> fold_byte(#[trigger] b@[n - m + t]) == suffix@[t],
        decreases m - k,
    {
        let fb = fold_byte_of(b[n - m + k]);
        if fb != suffix[k] {
            return false;
        }
        k = k + 1;
    }
    true
}

/// The character sequences of a list of names.
pub open spec fn name_views(s: Seq<String>) -> Seq<Seq<char>> {
    s.map_values(|x: String| x@)
}

/// Sorts names into natural order by insertion, returning a rearrangement of
/// the input whose neighbouring pairs are all in order.
pub fn sort_natural(names: Vec<String>) -> (r: Vec<String>)
    ensures
        r@.to_multiset() == names@.to_multiset(),
        name_views(r@).to_multiset() == name_views(names@).to_multiset(),
        r@.len() == names@.len(),
        natural_sorted(r@),
{
    let mut v = names;
    let ghost orig = v@;
    let n = v.len();
    let mut i: usize = 1;
    while i < n
        invariant
            v@.len() == n == orig.len(),
            v@.to_multiset() == orig.to_multiset(),
            name_views(v@).to_multiset() == name_views(orig).to_multiset(),
            1 <= i,
            i <= n || n == 0,
            i <= n ==> natural_sorted(v@.take(i as int)),
        decreases n - i,
    {
        let x = v[i].clone();
        let ghost w = v@;
        let mut j: usize = i;
        while j > 0 && natural_compare(&v[j - 1], &x) > 0
            invariant
                j <= i < n == v@.len() == w.len(),
                x == w[i as int],
                forall|k: int| 0 <= k < j ==> v@[k] == w[k],
                forall|k: int| j < k <= i ==> v@[k] == w[k - 1],
                forall|k: int| i < k < n ==> v@[k] == w[k],
                forall|k: int|
                    j <= k < i ==> nat_cmp(encode_utf8(#[trigger] w[k]@), encode_utf8(x@)) > 0,
            decreases j,
        {
            let moved = v[j - 1].clone();
            v.set(j, moved);
            j = j - 1;
        }
        v.set(j, x);
        proof {
            broadcast use vstd::seq_lib::group_to_multiset_ensures;
            broadcast use vstd::multiset::group_multiset_axioms;

            let u = v@;
            assert(u.remove(j as int) =~= w.remove(i as int));
            assert(u.to_multiset().remove(x) == u.remove(j as int).to_multiset());
            assert(w.to_multiset().remove(x) == w.remove(i as int).to_multiset());
            assert(u.contains(x)) by {
                assert(u[j as int] == x);
            }
            assert(w.contains(x)) by {
                assert(w[i as int] == x);
            }
            assert(u.to_multiset() =~= w.to_multiset()) by {
                assert(forall|y: String|
                    y != x ==> #[trigger] u.to_multiset().count(y) == u.to_multiset().remove(
                        x,
                    ).count(y) && w.to_multiset().count(y) == w.to_multiset().remove(x).count(y));
                assert(u.to_multiset().count(x) == u.to_multiset().remove(x).count(x) + 1);
                assert(w.to_multiset().count(x) == w.to_multiset().remove(x).count(x) + 1);
            }
            let uv = name_views(u);
            let wv = name_views(w);
            assert(uv.remove(j as int) =~= wv.remove(i as int));
            assert(uv.to_multiset().remove(x@) == uv.remove(j as int).to_multiset());
            assert(wv.to_multiset().remove(x@) == wv.remove(i as int).to_multiset());
            assert(uv.contains(x@)) by {
                assert(uv[j as int] == x@);
            }
            assert(wv.contains(x@)) by {
                assert(wv[i as int] == x@);
            }
            assert(uv.to_multiset() =~= wv.to_multiset()) by {
                assert(forall|y: Seq<char>|
                    y != x@ ==> #[trigger] uv.to_multiset().count(y) == uv.to_multiset().remove(
                        x@,
                    ).count(y) && wv.to_multiset().count(y) == wv.to_multiset().remove(x@).count(
                        y,
                    ));
                assert(uv.to_multiset().count(x@) == uv.to_multiset().remove(x@).count(x@) + 1);
                assert(wv.to_multiset().count(x@) == wv.to_multiset().remove(x@).count(x@) + 1);
            }
            assert(natural_sorted(u.take(i + 1))) by {
                assert forall|k: int| 0 <= k < i implies nat_leq(
                    #[trigger] u.take(i + 1)[k]@,
                    u.take(i + 1)[k + 1]@,
                ) by {
                    lemma_nat_flip(encode_utf8(u[k]@), encode_utf8(u[k + 1]@));
                    if k + 1 < j {
                        assert(nat_leq(w.take(i as int)[k]@, w.take(i as int)[k + 1]@));
                    } else if k + 1 == j {
                        assert(u[k]@ == w[k]@ && u[k + 1]@ == x@);
                    } else if k == j {
                        assert(u[k + 1]@ == w[k]@);
                        lemma_nat_flip(encode_utf8(w[k]@), encode_utf8(x@));
                    } else {
                        assert(u[k]@ == w[k - 1]@ && u[k + 1]@ == w[k]@);
                        assert(nat_leq(w.take(i as int)[k - 1]@, w.take(i as int)[k]@));
                    }
                }
            }
        }
        i = i + 1;
    }
    proof {
        if n > 0 {
            assert(v@.take(n as int) =~= v@);
        }
    }
    v
}

} // verus!
