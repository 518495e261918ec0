//! Persisted-state codec.
//!
//! The persistent part of the game is stored as plain text: the currency
//! balance as a decimal number, the upgrade levels as one JSON object with
//! a fixed key order and no whitespace, and both together as the single
//! document `{"currency":N,"upgrades":{...}}`. Loading is best-effort:
//! missing or corrupt data yields zero or default values, never an error.
//! The storage backend itself (a file, a browser key-value store) lives
//! outside; it hands these functions raw bytes and takes raw bytes back.

use vstd::prelude::*;
use vstd::assert_seqs_equal;

use crate::economy::{PurchasedUpgrades, UpgradeType};

verus! {

pub open spec fn spec_is_digit(b: u8) -> bool {
    48 <= b <= 57
}

pub open spec fn spec_all_digits(s: Seq<u8>) -> bool {
    forall|i: int| 0 <= i < s.len() ==> spec_is_digit(#[trigger] s[i])
}

/// The number a digit string denotes, most significant digit first.
pub open spec fn spec_num_value(s: Seq<u8>) -> int
    decreases s.len(),
{
    if s.len() == 0 {
        0
    } else {
        spec_num_value(s.drop_last()) * 10 + (s.last() - 48)
    }
}

/// The canonical decimal digits of `n`: no leading zeros, `0` for zero.
pub open spec fn spec_digits(n: int) -> Seq<u8>
    recommends
        n >= 0,
    decreases n,
{
    if n < 10 {
        seq![(n + 48) as u8]
    } else {
        spec_digits(n / 10).push((n % 10 + 48) as u8)
    }
}

/// A digit string with no leading zero (except the single digit `0`).
pub open spec fn spec_canonical_digits(s: Seq<u8>) -> bool {
    &&& s.len() >= 1
    &&& spec_all_digits(s)
    &&& (s[0] == 48 ==> s.len() == 1)
}

/// What parsing a decimal string yields: its value, if the string is a
/// nonempty digit run whose value fits; nothing otherwise.
pub open spec fn spec_parse_u32(s: Seq<u8>) -> Option<u32> {
    if s.len() >= 1 && spec_all_digits(s) && spec_num_value(s) <= u32::MAX {
        Some(spec_num_value(s) as u32)
    } else {
        None
    }
}

/// The value of a digit string is nonnegative.
pub proof fn lemma_num_value_nonneg(s: Seq<u8>)
    requires
        spec_all_digits(s),
    ensures
        spec_num_value(s) >= 0,
    decreases s.len(),
{
    if s.len() > 0 {
        assert(spec_all_digits(s.drop_last())) by {
            assert(forall|i: int| 0 <= i < s.len() - 1 ==> s.drop_last()[i]
                == #[trigger] s[i]);
        }
        lemma_num_value_nonneg(s.drop_last());
        let v = spec_num_value(s.drop_last());
        assert(v * 10 >= 0) by (nonlinear_arith)
            requires
                v >= 0,
        ;
    }
}

/// The canonical digits of `n` are canonical, denote `n`, and stay short
/// for machine-word values.
pub proof fn lemma_digits_props(n: int)
    requires
        n >= 0,
    ensures
        spec_canonical_digits(spec_digits(n)),
        spec_num_value(spec_digits(n)) == n,
        n <= u32::MAX ==> spec_digits(n).len() <= 10,
        n >= 1 ==> spec_digits(n)[0] != 48,
    decreases n,
{
    if n < 10 {
        assert(spec_digits(n) =~= seq![(n + 48) as u8]);
        assert(spec_num_value(spec_digits(n)) == n) by {
            reveal_with_fuel(spec_num_value, 3);
            assert(spec_digits(n).drop_last() =~= Seq::<u8>::empty());
        }
    } else {
        lemma_digits_props(n / 10);
        let front = spec_digits(n / 10);
        let s = spec_digits(n);
        assert(s == front.push((n % 10 + 48) as u8));
        assert(s.drop_last() =~= front);
        assert(s.last() == (n % 10 + 48) as u8);
        assert(0 <= n % 10 <= 9);
        assert(spec_num_value(s) == spec_num_value(front) * 10 + n % 10);
        assert(n / 10 * 10 + n % 10 == n) by {
            vstd::arithmetic::div_mod::lemma_fundamental_div_mod(n, 10);
        }
        assert(spec_all_digits(s)) by {
            assert(forall|i: int| 0 <= i < s.len() - 1 ==> s[i] == #[trigger] front[i]);
        }
        assert(n / 10 >= 1);
        assert(s[0] == front[0]);
        if n <= u32::MAX {
            assert(n / 10 <= 429_496_729);
            assert(spec_pow10(9) == 1_000_000_000) by {
                reveal_with_fuel(spec_pow10, 10);
            }
            lemma_digits_len_le(n / 10, 9);
        }
    }
}

/// Ten to the `k`.
spec fn spec_pow10(k: nat) -> int
    decreases k,
{
    if k == 0 {
        1
    } else {
        10 * spec_pow10((k - 1) as nat)
    }
}

/// Digit-count bound: numbers below ten to the `k` need at most `k` digits.
proof fn lemma_digits_len_le(n: int, k: nat)
    requires
        0 <= n,
        n < spec_pow10(k),
        k >= 1,
    ensures
        spec_digits(n).len() <= k,
    decreases k,
{
    if n < 10 {
    } else {
        assert(k >= 2) by {
            reveal_with_fuel(spec_pow10, 2);
        }
        let p = spec_pow10((k - 1) as nat);
        lemma_pow10_pos((k - 1) as nat);
        assert(n / 10 < p) by {
            if n / 10 >= p {
                assert(n >= 10 * p) by {
                    vstd::arithmetic::div_mod::lemma_fundamental_div_mod(n, 10);
                    assert(n / 10 * 10 >= p * 10) by (nonlinear_arith)
                        requires
                            n / 10 >= p,
                    ;
                }
            }
        }
        lemma_digits_len_le(n / 10, (k - 1) as nat);
    }
}

/// Ten to any power is positive.
proof fn lemma_pow10_pos(k: nat)
    ensures
        spec_pow10(k) >= 1,
    decreases k,
{
    if k > 0 {
        lemma_pow10_pos((k - 1) as nat);
    }
}

/// A canonical digit string is the canonical form of its own value: the
/// decimal representation is unique.
pub proof fn lemma_canonical_digits_unique(s: Seq<u8>)
    requires
        spec_canonical_digits(s),
    ensures
        s == spec_digits(spec_num_value(s)),
    decreases s.len(),
{
    lemma_num_value_nonneg(s);
    let n = spec_num_value(s);
    if s.len() == 1 {
        assert(n == s[0] - 48) by {
            reveal_with_fuel(spec_num_value, 3);
            assert(s.drop_last() =~= Seq::<u8>::empty());
            assert(s.last() == s[0]);
        }
        assert(n < 10);
        assert(s =~= spec_digits(n));
    } else {
        let front = s.drop_last();
        assert(spec_all_digits(front)) by {
            assert(forall|i: int| 0 <= i < s.len() - 1 ==> front[i] == #[trigger] s[i]);
        }
        assert(front[0] == s[0]);
        assert(spec_canonical_digits(front));
        lemma_canonical_digits_unique(front);
        lemma_num_value_nonneg(front);
        let f = spec_num_value(front);
        assert(n == f * 10 + (s.last() - 48));
        assert(f >= 1) by {
            if f == 0 {
                assert(front == spec_digits(0));
                lemma_digits_props(0);
                assert(front.len() == 1 && front[0] == 48);
                assert(s[0] == 48 && s.len() > 1);
            }
        }
        assert(n / 10 == f && n % 10 == s.last() - 48) by {
            vstd::arithmetic::div_mod::lemma_fundamental_div_mod(n, 10);
            let d = s.last() - 48;
            assert(0 <= d <= 9);
            vstd::arithmetic::div_mod::lemma_fundamental_div_mod_converse(
                n,
                10,
                f,
                d,
            );
        }
        assert(n >= 10) by {
            assert(f * 10 >= 10) by (nonlinear_arith)
                requires
                    f >= 1,
            ;
        }
        assert(spec_digits(n) == spec_digits(f).push((n % 10 + 48) as u8));
        assert(s =~= spec_digits(n));
    }
}

/// A longer digit run never denotes less: dropping trailing digits cannot
/// increase the value.
pub proof fn lemma_num_value_take_le(s: Seq<u8>, i: int)
    requires
        spec_all_digits(s),
        0 <= i <= s.len(),
    ensures
        spec_num_value(s.take(i)) <= spec_num_value(s),
    decreases s.len() - i,
{
    if i < s.len() {
        let t = s.take(i + 1);
        assert(spec_all_digits(t)) by {
            assert(forall|j: int| 0 <= j < t.len() ==> t[j] == #[trigger] s[j]);
        }
        assert(t.drop_last() =~= s.take(i));
        lemma_num_value_nonneg(t.drop_last());
        assert(spec_num_value(t) == spec_num_value(s.take(i)) * 10 + (s[i] - 48));
        assert(spec_num_value(s.take(i)) * 10 >= spec_num_value(s.take(i)))
            by (nonlinear_arith)
            requires
                spec_num_value(s.take(i)) >= 0,
        ;
        lemma_num_value_take_le(s, i + 1);
        assert(s.take(s.len() as int) =~= s);
    } else {
        assert(s.take(i) =~= s);
    }
}

/// The canonical decimal digits of `n`.
pub fn format_u32(n: u32) -> (r: Vec<u8>)
    ensures
        r@ == spec_digits(n as int),
{
    let mut out: Vec<u8> = Vec::new();
    let mut m: u32 = n;
    if m == 0 {
        out.push(48);
        proof {
            assert(out@ =~= spec_digits(0));
        }
        return out;
    }
    while m > 0
        invariant
            m >= 0,
            m > 0 ==> spec_digits(n as int) =~= spec_digits(m as int) + out@,
            m == 0 ==> spec_digits(n as int) =~= out@,
            n > 0,
        decreases m,
    {
        let d: u8 = (m % 10) as u8 + 48;
        let ghost o_prev = out@;
        out.insert(0, d);
        proof {
            assert(out@ =~= seq![d] + o_prev);
            let prev = m as int;
            if prev >= 10 {
                assert(spec_digits(prev) == spec_digits(prev / 10).push(
                    (prev % 10 + 48) as u8,
                ));
                assert(spec_digits(prev) + o_prev =~= spec_digits(prev / 10) + (
                seq![d] + o_prev));
            } else {
                assert(spec_digits(prev) =~= seq![d]);
            }
        }
        m = m / 10;
    }
    out
}

/// Parses a decimal number: succeeds exactly on nonempty all-digit input
/// whose value fits a machine word, as `spec_parse_u32` states.
pub fn parse_u32(s: &[u8]) -> (r: Option<u32>)
    ensures
        r == spec_parse_u32(s@),
{
    let n = s.len();
    if n == 0 {
        return None;
    }
    let mut acc: u32 = 0;
    let mut i: usize = 0;
    while i < n
        invariant
            0 <= i <= n,
            n == s@.len(),
            spec_all_digits(s@.take(i as int)),
            acc == spec_num_value(s@.take(i as int)),
        decreases n - i,
    {
        let b = s[i];
        if b < 48 || b > 57 {
            proof {
                assert(!spec_is_digit(s@[i as int]));
            }
            return None;
        }
        let d: u32 = (b - 48) as u32;
        let wide: u64 = (acc as u64) * 10 + (d as u64);
        proof {
            assert(s@.take(i + 1).drop_last() =~= s@.take(i as int));
            assert(spec_all_digits(s@.take(i + 1))) by {
                assert(forall|j: int| 0 <= j < i + 1 ==> s@.take(i + 1)[j]
                    == #[trigger] s@[j]);
            }
        }
        if wide > u32::MAX as u64 {
            proof {
                assert(spec_num_value(s@.take(i + 1)) == wide);
                if spec_all_digits(s@) {
                    lemma_num_value_take_le(s@, i + 1);
                    assert(spec_num_value(s@) > u32::MAX);
                }
            }
            return None;
        }
        acc = wide as u32;
        i = i + 1;
    }
    proof {
        assert(s@.take(n as int) =~= s@);
    }
    Some(acc)
}

/// The index right after the digit run starting at `pos`: every byte in
/// between is a digit and the run cannot be extended.
pub fn scan_digits(s: &[u8], pos: usize) -> (end: usize)
    requires
        pos <= s@.len(),
    ensures
        pos <= end <= s@.len(),
        forall|i: int| pos <= i < end ==> spec_is_digit(#[trigger] s@[i]),
        end < s@.len() ==> !spec_is_digit(s@[end as int]),
    decreases s@.len() - pos,
{
    let mut end: usize = pos;
    while end < s.len()
        invariant
            pos <= end <= s@.len(),
            forall|i: int| pos <= i < end ==> spec_is_digit(#[trigger] s@[i]),
        decreases s@.len() - end,
    {
        let b = s[end];
        if b < 48 || b > 57 {
            return end;
        }
        end = end + 1;
    }
    end
}

/// Reads one canonically written number at `pos`: the maximal digit run
/// there must be nonempty, have no leading zero, and fit a machine word.
/// Exactly when the input carries `spec_digits(v)` at `pos`, followed by
/// the end of input or a non-digit, the call returns that `v` and the
/// position after it.
pub fn parse_canonical_number(s: &[u8], pos: usize) -> (r: Option<(u32, usize)>)
    requires
        pos <= s@.len(),
    ensures
        r is Some ==> ({
            let (v, end) = r->Some_0;
            &&& pos < end <= s@.len()
            &&& s@.subrange(pos as int, end as int) == spec_digits(v as int)
            &&& (end == s@.len() || !spec_is_digit(s@[end as int]))
        }),
        (forall|v: u32| #![trigger spec_digits(v as int)] {
            let d = spec_digits(v as int);
            (pos + d.len() <= s@.len() && s@.subrange(pos as int, pos + d.len()) == d
                && (pos + d.len() == s@.len() || !spec_is_digit(s@[pos + d.len()])))
        } ==> r == Some((v, (pos + spec_digits(v as int).len()) as usize))),
{
    let end = scan_digits(s, pos);
    let ghost run = s@.subrange(pos as int, end as int);
    if end == pos {
        proof {
            lemma_no_number_here(s@, pos as int, end as int);
        }
        return None;
    }
    if s[pos] == 48 && end > pos + 1 {
        proof {
            lemma_no_number_here(s@, pos as int, end as int);
        }
        return None;
    }
    let v_opt = parse_u32(&s[pos..end]);
    proof {
        assert(s@.subrange(pos as int, end as int) == run);
        assert(spec_all_digits(run)) by {
            assert(forall|i: int| 0 <= i < run.len() ==> run[i]
                == #[trigger] s@[pos + i]);
        }
        if spec_parse_u32(run) is Some {
            assert(run.len() >= 1);
            assert(run[0] == s@[pos as int]);
            assert(spec_canonical_digits(run));
        }
    }
    match v_opt {
        Some(v) => {
            proof {
                assert(spec_parse_u32(run) == Some(v));
                lemma_num_value_nonneg(run);
                assert(v == spec_num_value(run));
                lemma_canonical_digits_unique(run);
                assert(run == spec_digits(v as int));
                lemma_match_forces_run(s@, pos as int, end as int, v);
            }
            Some((v, end))
        },
        None => {
            proof {
                lemma_no_number_here(s@, pos as int, end as int);
            }
            None
        },
    }
}

/// When the maximal digit run at `pos` is empty, has a leading zero, or
/// overflows, no canonical number can sit at `pos`.
proof fn lemma_no_number_here(s: Seq<u8>, pos: int, end: int)
    requires
        0 <= pos <= end <= s.len(),
        forall|i: int| pos <= i < end ==> spec_is_digit(#[trigger] s[i]),
        end < s.len() ==> !spec_is_digit(s[end]),
        ({
            let run = s.subrange(pos, end);
            end == pos || (s[pos] == 48 && end > pos + 1) || (spec_parse_u32(run)
                is None)
        }),
    ensures
        (forall|v: u32| #![trigger spec_digits(v as int)] {
            let d = spec_digits(v as int);
            !(pos + d.len() <= s.len() && s.subrange(pos, pos + d.len()) == d
                && (pos + d.len() == s.len() || !spec_is_digit(s[pos + d.len()])))
        }),
{
    let run = s.subrange(pos, end);
    assert(spec_all_digits(run)) by {
        assert(forall|i: int| 0 <= i < run.len() ==> run[i] == #[trigger] s[pos + i]);
    }
    assert forall|v: u32| #![trigger spec_digits(v as int)] {
        let d = spec_digits(v as int);
        !(pos + d.len() <= s.len() && s.subrange(pos, pos + d.len()) == d
            && (pos + d.len() == s.len() || !spec_is_digit(s[pos + d.len()])))
    } by {
        let d = spec_digits(v as int);
        lemma_digits_props(v as int);
        if pos + d.len() <= s.len() && s.subrange(pos, pos + d.len()) == d
            && (pos + d.len() == s.len() || !spec_is_digit(s[pos + d.len()])) {
            lemma_digit_run_is_pinned(s, pos, end, v);
            assert(run == d);
            lemma_digits_props(v as int);
            assert(spec_parse_u32(run) == Some(v));
            assert(end > pos);
            assert(!(s[pos] == 48 && end > pos + 1));
        }
    }
}

/// If `spec_digits(v)` sits at `pos` followed by a non-digit (or the end),
/// the maximal digit run `[pos, end)` is exactly it.
proof fn lemma_digit_run_is_pinned(s: Seq<u8>, pos: int, end: int, v: u32)
    requires
        0 <= pos <= end <= s.len(),
        forall|i: int| pos <= i < end ==> spec_is_digit(#[trigger] s[i]),
        end < s.len() ==> !spec_is_digit(s[end]),
        pos + spec_digits(v as int).len() <= s.len(),
        s.subrange(pos, pos + spec_digits(v as int).len()) == spec_digits(v as int),
        pos + spec_digits(v as int).len() == s.len() || !spec_is_digit(
            s[pos + spec_digits(v as int).len()],
        ),
    ensures
        end == pos + spec_digits(v as int).len(),
        s.subrange(pos, end) == spec_digits(v as int),
{
    let d = spec_digits(v as int);
    lemma_digits_props(v as int);
    let stop = pos + d.len();
    if end < stop {
        assert(spec_is_digit(d[end - pos])) by {
            assert(spec_canonical_digits(d));
        }
        assert(s[end] == d[end - pos]) by {
            assert(s.subrange(pos, stop)[end - pos] == s[end]);
        }
        assert(end < s.len());
        assert(false);
    }
    if end > stop {
        assert(stop < s.len());
        assert(spec_is_digit(s[stop]));
        assert(false);
    }
    assert(s.subrange(pos, end) == d);
}

/// With a canonical run `[pos, end)` of value `v`, the completeness clause
/// of `parse_canonical_number` is pinned to `Some((v, end))`.
proof fn lemma_match_forces_run(s: Seq<u8>, pos: int, end: int, v: u32)
    requires
        0 <= pos < end <= s.len(),
        forall|i: int| pos <= i < end ==> spec_is_digit(#[trigger] s[i]),
        end < s.len() ==> !spec_is_digit(s[end]),
        s.subrange(pos, end) == spec_digits(v as int),
    ensures
        (forall|w: u32| #![trigger spec_digits(w as int)] {
            let d = spec_digits(w as int);
            (pos + d.len() <= s.len() && s.subrange(pos, pos + d.len()) == d
                && (pos + d.len() == s.len() || !spec_is_digit(s[pos + d.len()])))
        } ==> w == v && end == pos + spec_digits(w as int).len()),
{
    assert forall|w: u32| #![trigger spec_digits(w as int)] {
        let d = spec_digits(w as int);
        (pos + d.len() <= s.len() && s.subrange(pos, pos + d.len()) == d
            && (pos + d.len() == s.len() || !spec_is_digit(s[pos + d.len()])))
    } implies w == v && end == pos + spec_digits(w as int).len() by {
        lemma_digit_run_is_pinned(s, pos, end, w);
        assert(spec_digits(w as int) == spec_digits(v as int));
        lemma_digits_props(w as int);
        lemma_digits_props(v as int);
        assert(spec_num_value(spec_digits(w as int)) == w);
    }
}

/// Succeeds exactly when `lit` sits in `s` at `pos`; the result is the
/// position right after it.
pub fn expect_prefix(s: &[u8], pos: usize, lit: &[u8]) -> (r: Option<usize>)
    requires
        pos <= s@.len(),
    ensures
        r is Some ==> r->Some_0 == pos + lit@.len(),
        r is Some <==> (pos + lit@.len() <= s@.len() && s@.subrange(
            pos as int,
            pos + lit@.len(),
        ) == lit@),
{
    let n = s.len();
    let m = lit.len();
    if m > n - pos {
        return None;
    }
    let mut i: usize = 0;
    while i < m
        invariant
            0 <= i <= m,
            m == lit@.len(),
            n == s@.len(),
            pos + m <= n,
            forall|j: int| 0 <= j < i ==> s@[pos + j] == #[trigger] lit@[j],
        decreases m - i,
    {
        if s[pos + i] != lit[i] {
            proof {
                assert(s@.subrange(pos as int, pos + lit@.len()) != lit@) by {
                    assert(s@.subrange(pos as int, pos + lit@.len())[i as int]
                        == s@[pos + i]);
                }
            }
            return None;
        }
        i = i + 1;
    }
    proof {
        assert_seqs_equal!(s@.subrange(pos as int, pos + lit@.len()) == lit@, j => {
            assert(s@[pos + j] == lit@[j]);
        });
    }
    Some(pos + lit.len())
}

/// The byte sequence `{\"currency\":`.
pub open spec fn lit_cur_open() -> Seq<u8> {
    seq![123u8, 34u8, 99u8, 117u8, 114u8, 114u8, 101u8, 110u8, 99u8, 121u8, 34u8, 58u8]
}

fn push_lit_cur_open(out: &mut Vec<u8>)
    ensures
        final(out)@ == old(out)@ + lit_cur_open(),
{
    out.push(123);
    out.push(34);
    out.push(99);
    out.push(117);
    out.push(114);
    out.push(114);
    out.push(101);
    out.push(110);
    out.push(99);
    out.push(121);
    out.push(34);
    out.push(58);
    proof {
        assert(out@ =~= old(out)@ + lit_cur_open());
    }
}

fn lit_vec_cur_open() -> (r: Vec<u8>)
    ensures
        r@ == lit_cur_open(),
{
    let mut v: Vec<u8> = Vec::new();
    push_lit_cur_open(&mut v);
    proof {
        assert(v@ =~= lit_cur_open());
    }
    v
}

/// The byte sequence `,\"upgrades\":`.
pub open spec fn lit_upg_key() -> Seq<u8> {
    seq![44u8, 34u8, 117u8, 112u8, 103u8, 114u8, 97u8, 100u8, 101u8, 115u8, 34u8, 58u8]
}

fn push_lit_upg_key(out: &mut Vec<u8>)
    ensures
        final(out)@ == old(out)@ + lit_upg_key(),
{
    out.push(44);
    out.push(34);
    out.push(117);
    out.push(112);
    out.push(103);
    out.push(114);
    out.push(97);
    out.push(100);
    out.push(101);
    out.push(115);
    out.push(34);
    out.push(58);
    proof {
        assert(out@ =~= old(out)@ + lit_upg_key());
    }
}

fn lit_vec_upg_key() -> (r: Vec<u8>)
    ensures
        r@ == lit_upg_key(),
{
    let mut v: Vec<u8> = Vec::new();
    push_lit_upg_key(&mut v);
    proof {
        assert(v@ =~= lit_upg_key());
    }
    v
}

/// The byte sequence `{\"movement_speed_level\":`.
pub open spec fn lit_upg_open() -> Seq<u8> {
    seq![123u8, 34u8, 109u8, 111u8, 118u8, 101u8, 109u8, 101u8, 110u8, 116u8, 95u8, 115u8, 112u8, 101u8, 101u8, 100u8, 95u8, 108u8, 101u8, 118u8, 101u8, 108u8, 34u8, 58u8]
}

fn push_lit_upg_open(out: &mut Vec<u8>)
    ensures
        final(out)@ == old(out)@ + lit_upg_open(),
{
    out.push(123);
    out.push(34);
    out.push(109);
    out.push(111);
    out.push(118);
    out.push(101);
    out.push(109);
    out.push(101);
    out.push(110);
    out.push(116);
    out.push(95);
    out.push(115);
    out.push(112);
    out.push(101);
    out.push(101);
    out.push(100);
    out.push(95);
    out.push(108);
    out.push(101);
    out.push(118);
    out.push(101);
    out.push(108);
    out.push(34);
    out.push(58);
    proof {
        assert(out@ =~= old(out)@ + lit_upg_open());
    }
}

fn lit_vec_upg_open() -> (r: Vec<u8>)
    ensures
        r@ == lit_upg_open(),
{
    let mut v: Vec<u8> = Vec::new();
    push_lit_upg_open(&mut v);
    proof {
        assert(v@ =~= lit_upg_open());
    }
    v
}

/// The byte sequence `,\"max_health_level\":`.
pub open spec fn lit_key_max_health() -> Seq<u8> {
    seq![44u8, 34u8, 109u8, 97u8, 120u8, 95u8, 104u8, 101u8, 97u8, 108u8, 116u8, 104u8, 95u8, 108u8, 101u8, 118u8, 101u8, 108u8, 34u8, 58u8]
}

fn push_lit_key_max_health(out: &mut Vec<u8>)
    ensures
        final(out)@ == old(out)@ + lit_key_max_health(),
{
    out.push(44);
    out.push(34);
    out.push(109);
    out.push(97);
    out.push(120);
    out.push(95);
    out.push(104);
    out.push(101);
    out.push(97);
    out.push(108);
    out.push(116);
    out.push(104);
    out.push(95);
    out.push(108);
    out.push(101);
    out.push(118);
    out.push(101);
    out.push(108);
    out.push(34);
    out.push(58);
    proof {
        assert(out@ =~= old(out)@ + lit_key_max_health());
    }
}

fn lit_vec_key_max_health() -> (r: Vec<u8>)
    ensures
        r@ == lit_key_max_health(),
{
    let mut v: Vec<u8> = Vec::new();
    push_lit_key_max_health(&mut v);
    proof {
        assert(v@ =~= lit_key_max_health());
    }
    v
}

/// The byte sequence `,\"trail_damage_level\":`.
pub open spec fn lit_key_trail_damage() -> Seq<u8> {
    seq![44u8, 34u8, 116u8, 114u8, 97u8, 105u8, 108u8, 95u8, 100u8, 97u8, 109u8, 97u8, 103u8, 101u8, 95u8, 108u8, 101u8, 118u8, 101u8, 108u8, 34u8, 58u8]
}

fn push_lit_key_trail_damage(out: &mut Vec<u8>)
    ensures
        final(out)@ == old(out)@ + lit_key_trail_damage(),
{
    out.push(44);
    out.push(34);
    out.push(116);
    out.push(114);
    out.push(97);
    out.push(105);
    out.push(108);
    out.push(95);
    out.push(100);
    out.push(97);
    out.push(109);
    out.push(97);
    out.push(103);
    out.push(101);
    out.push(95);
    out.push(108);
    out.push(101);
    out.push(118);
    out.push(101);
    out.push(108);
    out.push(34);
    out.push(58);
    proof {
        assert(out@ =~= old(out)@ + lit_key_trail_damage());
    }
}

fn lit_vec_key_trail_damage() -> (r: Vec<u8>)
    ensures
        r@ == lit_key_trail_damage(),
{
    let mut v: Vec<u8> = Vec::new();
    push_lit_key_trail_damage(&mut v);
    proof {
        assert(v@ =~= lit_key_trail_damage());
    }
    v
}

/// The byte sequence `,\"shield_level\":`.
pub open spec fn lit_key_shield() -> Seq<u8> {
    seq![44u8, 34u8, 115u8, 104u8, 105u8, 101u8, 108u8, 100u8, 95u8, 108u8, 101u8, 118u8, 101u8, 108u8, 34u8, 58u8]
}

fn push_lit_key_shield(out: &mut Vec<u8>)
    ensures
        final(out)@ == old(out)@ + lit_key_shield(),
{
    out.push(44);
    out.push(34);
    out.push(115);
    out.push(104);
    out.push(105);
    out.push(101);
    out.push(108);
    out.push(100);
    out.push(95);
    out.push(108);
    out.push(101);
    out.push(118);
    out.push(101);
    out.push(108);
    out.push(34);
    out.push(58);
    proof {
        assert(out@ =~= old(out)@ + lit_key_shield());
    }
}

fn lit_vec_key_shield() -> (r: Vec<u8>)
    ensures
        r@ == lit_key_shield(),
{
    let mut v: Vec<u8> = Vec::new();
    push_lit_key_shield(&mut v);
    proof {
        assert(v@ =~= lit_key_shield());
    }
    v
}

/// The byte sequence `,\"enemy_knockback_level\":`.
pub open spec fn lit_key_knockback() -> Seq<u8> {
    seq![44u8, 34u8, 101u8, 110u8, 101u8, 109u8, 121u8, 95u8, 107u8, 110u8, 111u8, 99u8, 107u8, 98u8, 97u8, 99u8, 107u8, 95u8, 108u8, 101u8, 118u8, 101u8, 108u8, 34u8, 58u8]
}

fn push_lit_key_knockback(out: &mut Vec<u8>)
    ensures
        final(out)@ == old(out)@ + lit_key_knockback(),
{
    out.push(44);
    out.push(34);
    out.push(101);
    out.push(110);
    out.push(101);
    out.push(109);
    out.push(121);
    out.push(95);
    out.push(107);
    out.push(110);
    out.push(111);
    out.push(99);
    out.push(107);
    out.push(98);
    out.push(97);
    out.push(99);
    out.push(107);
    out.push(95);
    out.push(108);
    out.push(101);
    out.push(118);
    out.push(101);
    out.push(108);
    out.push(34);
    out.push(58);
    proof {
        assert(out@ =~= old(out)@ + lit_key_knockback());
    }
}

fn lit_vec_key_knockback() -> (r: Vec<u8>)
    ensures
        r@ == lit_key_knockback(),
{
    let mut v: Vec<u8> = Vec::new();
    push_lit_key_knockback(&mut v);
    proof {
        assert(v@ =~= lit_key_knockback());
    }
    v
}

/// The byte sequence `}`.
pub open spec fn lit_close_brace() -> Seq<u8> {
    seq![125u8]
}

fn push_lit_close_brace(out: &mut Vec<u8>)
    ensures
        final(out)@ == old(out)@ + lit_close_brace(),
{
    out.push(125);
    proof {
        assert(out@ =~= old(out)@ + lit_close_brace());
    }
}

fn lit_vec_close_brace() -> (r: Vec<u8>)
    ensures
        r@ == lit_close_brace(),
{
    let mut v: Vec<u8> = Vec::new();
    push_lit_close_brace(&mut v);
    proof {
        assert(v@ =~= lit_close_brace());
    }
    v
}



/// One field of the object: its key literal followed by the canonical
/// digits of its value.
pub open spec fn spec_field(lit: Seq<u8>, v: u32) -> Seq<u8> {
    lit + spec_digits(v as int)
}

/// The canonical upgrades object, keys in fixed order, no whitespace.
pub open spec fn spec_encode_upgrades(u: PurchasedUpgrades) -> Seq<u8> {
    spec_field(lit_upg_open(), u.movement_speed_level) + spec_field(
        lit_key_max_health(),
        u.max_health_level,
    ) + spec_field(lit_key_trail_damage(), u.trail_damage_level) + spec_field(
        lit_key_shield(),
        u.shield_level,
    ) + spec_field(lit_key_knockback(), u.enemy_knockback_level) + lit_close_brace()
}

/// The canonical combined document `{"currency":N,"upgrades":{...}}`.
pub open spec fn spec_encode_state(currency: u32, u: PurchasedUpgrades) -> Seq<u8> {
    spec_field(lit_cur_open(), currency) + lit_upg_key() + spec_encode_upgrades(u)
        + lit_close_brace()
}

/// What decoding an upgrades object yields: the one value it encodes, if
/// it encodes one.
pub open spec fn spec_decode_upgrades(s: Seq<u8>) -> Option<PurchasedUpgrades> {
    if exists|u: PurchasedUpgrades| s == #[trigger] spec_encode_upgrades(u) {
        Some(choose|u: PurchasedUpgrades| s == #[trigger] spec_encode_upgrades(u))
    } else {
        None
    }
}

/// What decoding a combined document yields.
pub open spec fn spec_decode_state(s: Seq<u8>) -> Option<(u32, PurchasedUpgrades)> {
    if exists|p: (u32, PurchasedUpgrades)| s == #[trigger] spec_encode_state(p.0, p.1) {
        Some(choose|p: (u32, PurchasedUpgrades)| s == #[trigger] spec_encode_state(p.0, p.1))
    } else {
        None
    }
}

/// Equal concatenations with the same first part have the same second part.
proof fn lemma_strip_prefix(a: Seq<u8>, b: Seq<u8>, c: Seq<u8>)
    requires
        a + b == a + c,
    ensures
        b == c,
{
    assert((a + b).len() == a.len() + b.len());
    assert((a + c).len() == a.len() + c.len());
    assert(b.len() == c.len());
    assert(b =~= c) by {
        assert(forall|i: int| 0 <= i < b.len() ==> (a + b)[a.len() + i] == #[trigger] b[i]);
        assert(forall|i: int| 0 <= i < c.len() ==> (a + c)[a.len() + i] == #[trigger] c[i]);
    }
}

/// Equal strings that both start with a key literal and a canonically
/// written number, followed by a non-digit, carry the same number and the
/// same tail.
proof fn lemma_field_forced(lit: Seq<u8>, v1: u32, rest1: Seq<u8>, v2: u32, rest2: Seq<u8>)
    requires
        spec_field(lit, v1) + rest1 == spec_field(lit, v2) + rest2,
        rest1.len() >= 1,
        rest2.len() >= 1,
        !spec_is_digit(rest1[0]),
        !spec_is_digit(rest2[0]),
    ensures
        v1 == v2,
        rest1 == rest2,
{
    assert((lit + spec_digits(v1 as int)) + rest1 =~= lit + (spec_digits(v1 as int)
        + rest1));
    assert((lit + spec_digits(v2 as int)) + rest2 =~= lit + (spec_digits(v2 as int)
        + rest2));
    lemma_strip_prefix(lit, spec_digits(v1 as int) + rest1, spec_digits(v2 as int) + rest2);
    let s = spec_digits(v1 as int) + rest1;
    let d1 = spec_digits(v1 as int);
    let d2 = spec_digits(v2 as int);
    lemma_digits_props(v1 as int);
    lemma_digits_props(v2 as int);
    let end = d1.len() as int;
    assert(s.subrange(0, end) =~= d1);
    assert(forall|i: int| 0 <= i < end ==> spec_is_digit(#[trigger] s[i])) by {
        assert(forall|i: int| 0 <= i < end ==> s[i] == #[trigger] d1[i]);
    }
    assert(!spec_is_digit(s[end]));
    assert(s.subrange(0, d2.len() as int) =~= d2) by {
        assert(forall|i: int| 0 <= i < d2.len() ==> (d2 + rest2)[i] == #[trigger] d2[i]);
    }
    assert(d2.len() == s.len() || !spec_is_digit(s[d2.len() as int])) by {
        assert((d2 + rest2)[d2.len() as int] == rest2[0]);
    }
    lemma_match_forces_run(s, 0, end, v1);
    assert(v2 == v1);
    lemma_strip_prefix(d1, rest1, rest2);
}

/// The canonical upgrades encoding is one-to-one.
#[verifier::rlimit(100)]
pub proof fn lemma_encode_upgrades_injective(u1: PurchasedUpgrades, u2: PurchasedUpgrades)
    requires
        spec_encode_upgrades(u1) == spec_encode_upgrades(u2),
    ensures
        u1 == u2,
{
    let t1a = spec_field(lit_key_max_health(), u1.max_health_level) + spec_field(
        lit_key_trail_damage(),
        u1.trail_damage_level,
    ) + spec_field(lit_key_shield(), u1.shield_level) + spec_field(
        lit_key_knockback(),
        u1.enemy_knockback_level,
    ) + lit_close_brace();
    let t2a = spec_field(lit_key_max_health(), u2.max_health_level) + spec_field(
        lit_key_trail_damage(),
        u2.trail_damage_level,
    ) + spec_field(lit_key_shield(), u2.shield_level) + spec_field(
        lit_key_knockback(),
        u2.enemy_knockback_level,
    ) + lit_close_brace();
    assert(spec_encode_upgrades(u1) =~= spec_field(lit_upg_open(), u1.movement_speed_level)
        + t1a);
    assert(spec_encode_upgrades(u2) =~= spec_field(lit_upg_open(), u2.movement_speed_level)
        + t2a);
    assert(t1a[0] == 44 && t2a[0] == 44);
    lemma_field_forced(lit_upg_open(), u1.movement_speed_level, t1a, u2.movement_speed_level, t2a);

    let t1b = spec_field(lit_key_trail_damage(), u1.trail_damage_level) + spec_field(
        lit_key_shield(),
        u1.shield_level,
    ) + spec_field(lit_key_knockback(), u1.enemy_knockback_level) + lit_close_brace();
    let t2b = spec_field(lit_key_trail_damage(), u2.trail_damage_level) + spec_field(
        lit_key_shield(),
        u2.shield_level,
    ) + spec_field(lit_key_knockback(), u2.enemy_knockback_level) + lit_close_brace();
    assert(t1a =~= spec_field(lit_key_max_health(), u1.max_health_level) + t1b);
    assert(t2a =~= spec_field(lit_key_max_health(), u2.max_health_level) + t2b);
    assert(t1b[0] == 44 && t2b[0] == 44);
    lemma_field_forced(lit_key_max_health(), u1.max_health_level, t1b, u2.max_health_level, t2b);

    let t1c = spec_field(lit_key_shield(), u1.shield_level) + spec_field(
        lit_key_knockback(),
        u1.enemy_knockback_level,
    ) + lit_close_brace();
    let t2c = spec_field(lit_key_shield(), u2.shield_level) + spec_field(
        lit_key_knockback(),
        u2.enemy_knockback_level,
    ) + lit_close_brace();
    assert(t1b =~= spec_field(lit_key_trail_damage(), u1.trail_damage_level) + t1c);
    assert(t2b =~= spec_field(lit_key_trail_damage(), u2.trail_damage_level) + t2c);
    assert(t1c[0] == 44 && t2c[0] == 44);
    lemma_field_forced(
        lit_key_trail_damage(),
        u1.trail_damage_level,
        t1c,
        u2.trail_damage_level,
        t2c,
    );

    let t1d = spec_field(lit_key_knockback(), u1.enemy_knockback_level) + lit_close_brace();
    let t2d = spec_field(lit_key_knockback(), u2.enemy_knockback_level) + lit_close_brace();
    assert(t1c =~= spec_field(lit_key_shield(), u1.shield_level) + t1d);
    assert(t2c =~= spec_field(lit_key_shield(), u2.shield_level) + t2d);
    assert(t1d[0] == 44 && t2d[0] == 44);
    lemma_field_forced(lit_key_shield(), u1.shield_level, t1d, u2.shield_level, t2d);

    assert(lit_close_brace()[0] == 125);
    lemma_field_forced(
        lit_key_knockback(),
        u1.enemy_knockback_level,
        lit_close_brace(),
        u2.enemy_knockback_level,
        lit_close_brace(),
    );
}

/// The canonical combined encoding is one-to-one.
#[verifier::rlimit(100)]
pub proof fn lemma_encode_state_injective(
    c1: u32,
    u1: PurchasedUpgrades,
    c2: u32,
    u2: PurchasedUpgrades,
)
    requires
        spec_encode_state(c1, u1) == spec_encode_state(c2, u2),
    ensures
        c1 == c2,
        u1 == u2,
{
    let t1 = lit_upg_key() + spec_encode_upgrades(u1) + lit_close_brace();
    let t2 = lit_upg_key() + spec_encode_upgrades(u2) + lit_close_brace();
    assert(spec_encode_state(c1, u1) =~= spec_field(lit_cur_open(), c1) + t1);
    assert(spec_encode_state(c2, u2) =~= spec_field(lit_cur_open(), c2) + t2);
    assert(t1[0] == 44 && t2[0] == 44);
    lemma_field_forced(lit_cur_open(), c1, t1, c2, t2);
    assert(t1 =~= lit_upg_key() + (spec_encode_upgrades(u1) + lit_close_brace()));
    assert(t2 =~= lit_upg_key() + (spec_encode_upgrades(u2) + lit_close_brace()));
    lemma_strip_prefix(
        lit_upg_key(),
        spec_encode_upgrades(u1) + lit_close_brace(),
        spec_encode_upgrades(u2) + lit_close_brace(),
    );
    let e1 = spec_encode_upgrades(u1);
    let e2 = spec_encode_upgrades(u2);
    assert(e1.len() == e2.len()) by {
        assert((e1 + lit_close_brace()).len() == (e2 + lit_close_brace()).len());
    }
    assert(e1 =~= e2) by {
        assert(forall|i: int| 0 <= i < e1.len() ==> (e1 + lit_close_brace())[i]
            == #[trigger] e1[i]);
        assert(forall|i: int| 0 <= i < e2.len() ==> (e2 + lit_close_brace())[i]
            == #[trigger] e2[i]);
    }
    lemma_encode_upgrades_injective(u1, u2);
}

/// Decoding inverts encoding: the round trip through the persisted form
/// gives the value back.
pub proof fn lemma_upgrades_round_trip(u: PurchasedUpgrades)
    ensures
        spec_decode_upgrades(spec_encode_upgrades(u)) == Some(u),
{
    let s = spec_encode_upgrades(u);
    assert(s == spec_encode_upgrades(u));
    let w = choose|w: PurchasedUpgrades| s == #[trigger] spec_encode_upgrades(w);
    lemma_encode_upgrades_injective(u, w);
}

/// Decoding inverts encoding for the combined document too.
pub proof fn lemma_state_round_trip(c: u32, u: PurchasedUpgrades)
    ensures
        spec_decode_state(spec_encode_state(c, u)) == Some((c, u)),
{
    let s = spec_encode_state(c, u);
    assert(s == spec_encode_state(((c, u)).0, ((c, u)).1));
    let w = choose|w: (u32, PurchasedUpgrades)| s == #[trigger] spec_encode_state(w.0, w.1);
    lemma_encode_state_injective(c, u, w.0, w.1);
}

/// Writes one field: the key literal, then the canonical digits of `v`.
fn append_field(out: &mut Vec<u8>, lit: &[u8], v: u32)
    ensures
        final(out)@ == old(out)@ + spec_field(lit@, v),
{
    let mut i: usize = 0;
    let ghost base = out@;
    while i < lit.len()
        invariant
            0 <= i <= lit@.len(),
            out@ == base + lit@.take(i as int),
        decreases lit@.len() - i,
    {
        out.push(lit[i]);
        proof {
            assert(base + lit@.take(i as int) + seq![lit@[i as int]] =~= base
                + lit@.take(i + 1));
        }
        i = i + 1;
    }
    proof {
        assert(lit@.take(lit@.len() as int) =~= lit@);
    }
    let mut digits = format_u32(v);
    out.append(&mut digits);
    proof {
        assert(out@ =~= base + spec_field(lit@, v));
    }
}

/// The canonical byte form of the upgrade levels.
pub fn save_upgrades(upgrades: &PurchasedUpgrades) -> (r: Vec<u8>)
    ensures
        r@ == spec_encode_upgrades(*upgrades),
{
    let mut out: Vec<u8> = Vec::new();
    let open_lit = lit_vec_upg_open();
    let max_health_lit = lit_vec_key_max_health();
    let trail_lit = lit_vec_key_trail_damage();
    let shield_lit = lit_vec_key_shield();
    let knockback_lit = lit_vec_key_knockback();
    append_field(&mut out, open_lit.as_slice(), upgrades.movement_speed_level);
    append_field(&mut out, max_health_lit.as_slice(), upgrades.max_health_level);
    append_field(&mut out, trail_lit.as_slice(), upgrades.trail_damage_level);
    append_field(&mut out, shield_lit.as_slice(), upgrades.shield_level);
    append_field(&mut out, knockback_lit.as_slice(), upgrades.enemy_knockback_level);
    push_lit_close_brace(&mut out);
    proof {
        assert(out@ =~= spec_encode_upgrades(*upgrades));
    }
    out
}

/// The canonical byte form of the whole persisted state.
pub fn save_state(currency: u32, upgrades: &PurchasedUpgrades) -> (r: Vec<u8>)
    ensures
        r@ == spec_encode_state(currency, *upgrades),
{
    let mut out: Vec<u8> = Vec::new();
    let cur_lit = lit_vec_cur_open();
    append_field(&mut out, cur_lit.as_slice(), currency);
    push_lit_upg_key(&mut out);
    let mut upg = save_upgrades(upgrades);
    out.append(&mut upg);
    push_lit_close_brace(&mut out);
    proof {
        assert(out@ =~= spec_encode_state(currency, *upgrades));
    }
    out
}

/// The canonical decimal form of the currency balance.
pub fn save_currency(value: u32) -> (r: Vec<u8>)
    ensures
        r@ == spec_digits(value as int),
{
    format_u32(value)
}

/// Reads a stored currency balance. Missing or corrupt data falls back to
/// a zero balance; a stored decimal number is read exactly.
pub fn load_currency(raw: Option<&[u8]>) -> (r: u32)
    ensures
        raw is None ==> r == 0,
        raw is Some ==> r == (match spec_parse_u32(raw->0@) {
            Some(v) => v,
            None => 0u32,
        }),
{
    match raw {
        None => 0,
        Some(bytes) => {
            match parse_u32(bytes) {
                Some(v) => v,
                None => 0,
            }
        },
    }
}

/// Reads one key literal and the canonically written number after it.
/// Succeeds exactly when that pattern sits at `pos` with the number's last
/// digit followed by a non-digit or the end of input.
fn parse_key_number(s: &[u8], pos: usize, lit: &[u8]) -> (r: Option<(u32, usize)>)
    requires
        pos <= s@.len(),
    ensures
        r is Some ==> ({
            let (v, end) = r->Some_0;
            &&& pos < end <= s@.len()
            &&& s@.subrange(pos as int, end as int) == spec_field(lit@, v)
            &&& (end == s@.len() || !spec_is_digit(s@[end as int]))
        }),
        (forall|v: u32| #![trigger spec_digits(v as int)] {
            let f = spec_field(lit@, v);
            (pos + f.len() <= s@.len() && s@.subrange(pos as int, pos + f.len()) == f
                && (pos + f.len() == s@.len() || !spec_is_digit(s@[pos + f.len()])))
        } ==> r == Some((v, (pos + spec_field(lit@, v).len()) as usize))),
{
    let after_lit = match expect_prefix(s, pos, lit) {
        Some(p) => p,
        None => {
            proof {
                assert forall|v: u32| #![trigger spec_digits(v as int)] {
                    let f = spec_field(lit@, v);
                    !(pos + f.len() <= s@.len() && s@.subrange(pos as int, pos + f.len())
                        == f && (pos + f.len() == s@.len() || !spec_is_digit(
                        s@[pos + f.len()],
                    )))
                } by {
                    let f = spec_field(lit@, v);
                    if pos + f.len() <= s@.len() && s@.subrange(pos as int, pos + f.len())
                        == f {
                        assert(s@.subrange(pos as int, pos + lit@.len()) =~= lit@) by {
                            assert(forall|j: int| 0 <= j < lit@.len()
                                ==> s@.subrange(pos as int, pos + f.len())[j]
                                == #[trigger] f[j]);
                        }
                    }
                }
            }
            return None;
        },
    };
    match parse_canonical_number(s, after_lit) {
        Some((v, end)) => {
            proof {
                assert(s@.subrange(pos as int, end as int) =~= spec_field(lit@, v)) by {
                    assert(forall|j: int| 0 <= j < lit@.len() ==> s@.subrange(
                        pos as int,
                        pos + lit@.len(),
                    )[j] == #[trigger] lit@[j]);
                    assert(forall|j: int| 0 <= j < spec_digits(v as int).len()
                        ==> s@.subrange(after_lit as int, end as int)[j]
                        == #[trigger] spec_digits(v as int)[j]);
                }
                lemma_digits_props(v as int);
                assert forall|w: u32| #![trigger spec_digits(w as int)] {
                    let f = spec_field(lit@, w);
                    (pos + f.len() <= s@.len() && s@.subrange(pos as int, pos + f.len())
                        == f && (pos + f.len() == s@.len() || !spec_is_digit(
                        s@[pos + f.len()],
                    )))
                } implies Some((v, end)) == Some::<(u32, usize)>((
                    w,
                    (pos + spec_field(lit@, w).len()) as usize,
                )) by {
                    let f = spec_field(lit@, w);
                    let dw = spec_digits(w as int);
                    let stop = pos + f.len();
                    assert(forall|j: int| 0 <= j < f.len() ==> s@[pos + j]
                        == #[trigger] f[j]) by {
                        assert(forall|j: int| 0 <= j < f.len() ==> #[trigger] s@.subrange(
                            pos as int,
                            pos + f.len(),
                        )[j] == s@[pos + j]);
                    }
                    assert forall|j: int| 0 <= j < dw.len() implies s@.subrange(
                        after_lit as int,
                        after_lit + dw.len(),
                    )[j] == dw[j] by {
                        assert(s@[pos + (lit@.len() + j)] == f[lit@.len() + j]);
                        assert(f[lit@.len() + j] == dw[j]);
                    }
                    assert(s@.subrange(after_lit as int, after_lit + dw.len()) =~= dw);
                    lemma_digit_run_is_pinned_at(s@, after_lit as int, end as int, w, v);
                }
            }
            Some((v, end))
        },
        None => {
            proof {
                assert forall|v: u32| #![trigger spec_digits(v as int)] {
                    let f = spec_field(lit@, v);
                    !(pos + f.len() <= s@.len() && s@.subrange(pos as int, pos + f.len())
                        == f && (pos + f.len() == s@.len() || !spec_is_digit(
                        s@[pos + f.len()],
                    )))
                } by {
                    let f = spec_field(lit@, v);
                    let dv = spec_digits(v as int);
                    if pos + f.len() <= s@.len() && s@.subrange(pos as int, pos + f.len())
                        == f && (pos + f.len() == s@.len() || !spec_is_digit(
                        s@[pos + f.len()],
                    )) {
                        assert(forall|j: int| 0 <= j < f.len() ==> s@[pos + j]
                            == #[trigger] f[j]) by {
                            assert(forall|j: int| 0 <= j < f.len()
                                ==> #[trigger] s@.subrange(pos as int, pos + f.len())[j]
                                == s@[pos + j]);
                        }
                        assert forall|j: int| 0 <= j < dv.len() implies s@.subrange(
                            after_lit as int,
                            after_lit + dv.len(),
                        )[j] == dv[j] by {
                            assert(s@[pos + (lit@.len() + j)] == f[lit@.len() + j]);
                            assert(f[lit@.len() + j] == dv[j]);
                        }
                        assert(s@.subrange(after_lit as int, after_lit + dv.len()) =~= dv);
                        assert(false);
                    }
                }
            }
            None
        },
    }
}

/// A maximal digit run carrying the canonical digits of `v1` pins any
/// other canonical match `w` at the same start to the same number.
proof fn lemma_digit_run_is_pinned_at(s: Seq<u8>, pos: int, end: int, w: u32, v1: u32)
    requires
        0 <= pos < end <= s.len(),
        s.subrange(pos, end) == spec_digits(v1 as int),
        end == s.len() || !spec_is_digit(s[end]),
        pos + spec_digits(w as int).len() <= s.len(),
        s.subrange(pos, pos + spec_digits(w as int).len()) == spec_digits(w as int),
        pos + spec_digits(w as int).len() == s.len() || !spec_is_digit(
            s[pos + spec_digits(w as int).len()],
        ),
    ensures
        w == v1,
        end == pos + spec_digits(w as int).len(),
{
    lemma_digits_props(v1 as int);
    let d = spec_digits(v1 as int);
    assert(spec_canonical_digits(d));
    assert forall|i: int| pos <= i < end implies spec_is_digit(#[trigger] s[i]) by {
        assert(s.subrange(pos, end)[i - pos] == s[i]);
        assert(d[i - pos] == s[i]);
        assert(spec_is_digit(d[i - pos]));
    }
    lemma_match_forces_run(s, pos, end, v1);
    lemma_digits_props(w as int);
}

/// Reads the canonical upgrades object at `pos`; succeeds exactly on the
/// byte form `save_upgrades` writes, and returns the value it encodes and
/// the position right after it.
fn decode_upgrades_at(s: &[u8], pos: usize) -> (r: Option<(PurchasedUpgrades, usize)>)
    requires
        pos <= s@.len(),
    ensures
        r is Some ==> ({
            let (u, end) = r->Some_0;
            &&& pos < end <= s@.len()
            &&& s@.subrange(pos as int, end as int) == spec_encode_upgrades(u)
        }),
        (forall|u: PurchasedUpgrades| #![trigger spec_encode_upgrades(u)] {
            let e = spec_encode_upgrades(u);
            (pos + e.len() <= s@.len() && s@.subrange(pos as int, pos + e.len()) == e)
        } ==> r == Some((u, (pos + spec_encode_upgrades(u).len()) as usize))),
{
    let slen = s.len();
    proof {
        assert(s@.len() == slen);
    }
    let open_lit = lit_vec_upg_open();
    let max_health_lit = lit_vec_key_max_health();
    let trail_lit = lit_vec_key_trail_damage();
    let shield_lit = lit_vec_key_shield();
    let knockback_lit = lit_vec_key_knockback();
    let close_lit = lit_vec_close_brace();

    let step1 = parse_key_number(s, pos, open_lit.as_slice());
    let (v1, p1) = match step1 {
        Some(x) => x,
        None => {
            proof {
                lemma_upgrades_missing_1(s@, pos, step1);
            }
            return None;
        },
    };
    let step2 = parse_key_number(s, p1, max_health_lit.as_slice());
    let (v2, p2) = match step2 {
        Some(x) => x,
        None => {
            proof {
                lemma_upgrades_missing_2(s@, pos, v1, p1, step1, step2);
            }
            return None;
        },
    };
    let step3 = parse_key_number(s, p2, trail_lit.as_slice());
    let (v3, p3) = match step3 {
        Some(x) => x,
        None => {
            proof {
                lemma_upgrades_missing_3(s@, pos, v1, p1, v2, p2, step1, step2, step3);
            }
            return None;
        },
    };
    let step4 = parse_key_number(s, p3, shield_lit.as_slice());
    let (v4, p4) = match step4 {
        Some(x) => x,
        None => {
            proof {
                lemma_upgrades_missing_4(
                    s@,
                    pos,
                    v1,
                    p1,
                    v2,
                    p2,
                    v3,
                    p3,
                    step1,
                    step2,
                    step3,
                    step4,
                );
            }
            return None;
        },
    };
    let step5 = parse_key_number(s, p4, knockback_lit.as_slice());
    let (v5, p5) = match step5 {
        Some(x) => x,
        None => {
            proof {
                lemma_upgrades_missing_5(
                    s@,
                    pos,
                    v1,
                    p1,
                    v2,
                    p2,
                    v3,
                    p3,
                    v4,
                    p4,
                    step1,
                    step2,
                    step3,
                    step4,
                    step5,
                );
            }
            return None;
        },
    };
    let end = match expect_prefix(s, p5, close_lit.as_slice()) {
        Some(e) => e,
        None => {
            proof {
                lemma_upgrades_missing_brace(
                    s@,
                    pos,
                    v1,
                    p1,
                    v2,
                    p2,
                    v3,
                    p3,
                    v4,
                    p4,
                    v5,
                    p5,
                    step1,
                    step2,
                    step3,
                    step4,
                    step5,
                );
            }
            return None;
        },
    };
    let u = PurchasedUpgrades {
        movement_speed_level: v1,
        max_health_level: v2,
        trail_damage_level: v3,
        shield_level: v4,
        enemy_knockback_level: v5,
    };
    proof {
        assert(s@.subrange(pos as int, end as int) =~= spec_encode_upgrades(u)) by {
            lemma_glue_six(
                s@,
                pos as int,
                p1 as int,
                p2 as int,
                p3 as int,
                p4 as int,
                p5 as int,
                end as int,
                spec_field(lit_upg_open(), v1),
                spec_field(lit_key_max_health(), v2),
                spec_field(lit_key_trail_damage(), v3),
                spec_field(lit_key_shield(), v4),
                spec_field(lit_key_knockback(), v5),
                lit_close_brace(),
            );
        }
        lemma_upgrades_forces(
            s@,
            pos,
            v1,
            p1,
            v2,
            p2,
            v3,
            p3,
            v4,
            p4,
            v5,
            p5,
            step1,
            step2,
            step3,
            step4,
            step5,
        );
    }
    Some((u, end))
}

/// If the canonical upgrades object sat at `pos`, parsing could not have
/// failed at its field number 1.
#[verifier::rlimit(100)]
proof fn lemma_upgrades_missing_1(
    s: Seq<u8>, pos: usize, step1: Option<(u32, usize)>,
)
    requires
        pos <= s.len(),
        s.len() <= usize::MAX,
        (forall|v: u32| #![trigger spec_digits(v as int)] {
            let f = spec_field(lit_upg_open(), v);
            (pos + f.len() <= s.len() && s.subrange(pos as int, pos + f.len()) == f
                && (pos + f.len() == s.len() || !spec_is_digit(s[pos + f.len()])))
        } ==> step1 == Some((v, (pos + spec_field(lit_upg_open(), v).len()) as usize))),
        step1 is None,
    ensures
        (forall|w: PurchasedUpgrades| #![trigger spec_encode_upgrades(w)] {
            let e = spec_encode_upgrades(w);
            !(pos + e.len() <= s.len() && s.subrange(pos as int, pos + e.len()) == e)
        }),
{
    assert forall|w: PurchasedUpgrades| #![trigger spec_encode_upgrades(w)] {
        let e = spec_encode_upgrades(w);
        !(pos + e.len() <= s.len() && s.subrange(pos as int, pos + e.len()) == e)
    } by {
        let e = spec_encode_upgrades(w);
        if pos + e.len() <= s.len() && s.subrange(pos as int, pos + e.len()) == e {
        let f1 = spec_field(lit_upg_open(), w.movement_speed_level);
        let f2 = spec_field(lit_key_max_health(), w.max_health_level);
        let f3 = spec_field(lit_key_trail_damage(), w.trail_damage_level);
        let f4 = spec_field(lit_key_shield(), w.shield_level);
        let f5 = spec_field(lit_key_knockback(), w.enemy_knockback_level);
        let q1 = pos + f1.len();
        let q2 = q1 + f2.len();
        let q3 = q2 + f3.len();
        let q4 = q3 + f4.len();
        let q5 = q4 + f5.len();
        lemma_upgrades_components(s, pos as int, w);
        lemma_digits_props(w.movement_speed_level as int);
        assert(step1 == Some((w.movement_speed_level, q1 as usize)));
        assert(false);
        }
    }
}

/// If the canonical upgrades object sat at `pos`, parsing could not have
/// failed at its field number 2.
#[verifier::rlimit(100)]
proof fn lemma_upgrades_missing_2(
    s: Seq<u8>, pos: usize, v1: u32, p1: usize, step1: Option<(u32, usize)>, step2: Option<(u32, usize)>,
)
    requires
        pos <= s.len(),
        s.len() <= usize::MAX,
        (forall|v: u32| #![trigger spec_digits(v as int)] {
            let f = spec_field(lit_upg_open(), v);
            (pos + f.len() <= s.len() && s.subrange(pos as int, pos + f.len()) == f
                && (pos + f.len() == s.len() || !spec_is_digit(s[pos + f.len()])))
        } ==> step1 == Some((v, (pos + spec_field(lit_upg_open(), v).len()) as usize))),
        step1 == Some((v1, p1)),
        (forall|v: u32| #![trigger spec_digits(v as int)] {
            let f = spec_field(lit_key_max_health(), v);
            (p1 + f.len() <= s.len() && s.subrange(p1 as int, p1 + f.len()) == f
                && (p1 + f.len() == s.len() || !spec_is_digit(s[p1 + f.len()])))
        } ==> step2 == Some((v, (p1 + spec_field(lit_key_max_health(), v).len()) as usize))),
        step2 is None,
    ensures
        (forall|w: PurchasedUpgrades| #![trigger spec_encode_upgrades(w)] {
            let e = spec_encode_upgrades(w);
            !(pos + e.len() <= s.len() && s.subrange(pos as int, pos + e.len()) == e)
        }),
{
    assert forall|w: PurchasedUpgrades| #![trigger spec_encode_upgrades(w)] {
        let e = spec_encode_upgrades(w);
        !(pos + e.len() <= s.len() && s.subrange(pos as int, pos + e.len()) == e)
    } by {
        let e = spec_encode_upgrades(w);
        if pos + e.len() <= s.len() && s.subrange(pos as int, pos + e.len()) == e {
        let f1 = spec_field(lit_upg_open(), w.movement_speed_level);
        let f2 = spec_field(lit_key_max_health(), w.max_health_level);
        let f3 = spec_field(lit_key_trail_damage(), w.trail_damage_level);
        let f4 = spec_field(lit_key_shield(), w.shield_level);
        let f5 = spec_field(lit_key_knockback(), w.enemy_knockback_level);
        let q1 = pos + f1.len();
        let q2 = q1 + f2.len();
        let q3 = q2 + f3.len();
        let q4 = q3 + f4.len();
        let q5 = q4 + f5.len();
        lemma_upgrades_components(s, pos as int, w);
        lemma_digits_props(w.movement_speed_level as int);
        assert(step1 == Some((w.movement_speed_level, q1 as usize)));
        lemma_digits_props(w.max_health_level as int);
        assert(step2 == Some((w.max_health_level, q2 as usize)));
        assert(false);
        }
    }
}

/// If the canonical upgrades object sat at `pos`, parsing could not have
/// failed at its field number 3.
#[verifier::rlimit(100)]
proof fn lemma_upgrades_missing_3(
    s: Seq<u8>, pos: usize, v1: u32, p1: usize, v2: u32, p2: usize, step1: Option<(u32, usize)>, step2: Option<(u32, usize)>, step3: Option<(u32, usize)>,
)
    requires
        pos <= s.len(),
        s.len() <= usize::MAX,
        (forall|v: u32| #![trigger spec_digits(v as int)] {
            let f = spec_field(lit_upg_open(), v);
            (pos + f.len() <= s.len() && s.subrange(pos as int, pos + f.len()) == f
                && (pos + f.len() == s.len() || !spec_is_digit(s[pos + f.len()])))
        } ==> step1 == Some((v, (pos + spec_field(lit_upg_open(), v).len()) as usize))),
        step1 == Some((v1, p1)),
        (forall|v: u32| #![trigger spec_digits(v as int)] {
            let f = spec_field(lit_key_max_health(), v);
            (p1 + f.len() <= s.len() && s.subrange(p1 as int, p1 + f.len()) == f
                && (p1 + f.len() == s.len() || !spec_is_digit(s[p1 + f.len()])))
        } ==> step2 == Some((v, (p1 + spec_field(lit_key_max_health(), v).len()) as usize))),
        step2 == Some((v2, p2)),
        (forall|v: u32| #![trigger spec_digits(v as int)] {
            let f = spec_field(lit_key_trail_damage(), v);
            (p2 + f.len() <= s.len() && s.subrange(p2 as int, p2 + f.len()) == f
                && (p2 + f.len() == s.len() || !spec_is_digit(s[p2 + f.len()])))
        } ==> step3 == Some((v, (p2 + spec_field(lit_key_trail_damage(), v).len()) as usize))),
        step3 is None,
    ensures
        (forall|w: PurchasedUpgrades| #![trigger spec_encode_upgrades(w)] {
            let e = spec_encode_upgrades(w);
            !(pos + e.len() <= s.len() && s.subrange(pos as int, pos + e.len()) == e)
        }),
{
    assert forall|w: PurchasedUpgrades| #![trigger spec_encode_upgrades(w)] {
        let e = spec_encode_upgrades(w);
        !(pos + e.len() <= s.len() && s.subrange(pos as int, pos + e.len()) == e)
    } by {
        let e = spec_encode_upgrades(w);
        if pos + e.len() <= s.len() && s.subrange(pos as int, pos + e.len()) == e {
        let f1 = spec_field(lit_upg_open(), w.movement_speed_level);
        let f2 = spec_field(lit_key_max_health(), w.max_health_level);
        let f3 = spec_field(lit_key_trail_damage(), w.trail_damage_level);
        let f4 = spec_field(lit_key_shield(), w.shield_level);
        let f5 = spec_field(lit_key_knockback(), w.enemy_knockback_level);
        let q1 = pos + f1.len();
        let q2 = q1 + f2.len();
        let q3 = q2 + f3.len();
        let q4 = q3 + f4.len();
        let q5 = q4 + f5.len();
        lemma_upgrades_components(s, pos as int, w);
        lemma_digits_props(w.movement_speed_level as int);
        assert(step1 == Some((w.movement_speed_level, q1 as usize)));
        lemma_digits_props(w.max_health_level as int);
        assert(step2 == Some((w.max_health_level, q2 as usize)));
        lemma_digits_props(w.trail_damage_level as int);
        assert(step3 == Some((w.trail_damage_level, q3 as usize)));
        assert(false);
        }
    }
}

/// If the canonical upgrades object sat at `pos`, parsing could not have
/// failed at its field number 4.
#[verifier::rlimit(100)]
proof fn lemma_upgrades_missing_4(
    s: Seq<u8>, pos: usize, v1: u32, p1: usize, v2: u32, p2: usize, v3: u32, p3: usize, step1: Option<(u32, usize)>, step2: Option<(u32, usize)>, step3: Option<(u32, usize)>, step4: Option<(u32, usize)>,
)
    requires
        pos <= s.len(),
        s.len() <= usize::MAX,
        (forall|v: u32| #![trigger spec_digits(v as int)] {
            let f = spec_field(lit_upg_open(), v);
            (pos + f.len() <= s.len() && s.subrange(pos as int, pos + f.len()) == f
                && (pos + f.len() == s.len() || !spec_is_digit(s[pos + f.len()])))
        } ==> step1 == Some((v, (pos + spec_field(lit_upg_open(), v).len()) as usize))),
        step1 == Some((v1, p1)),
        (forall|v: u32| #![trigger spec_digits(v as int)] {
            let f = spec_field(lit_key_max_health(), v);
            (p1 + f.len() <= s.len() && s.subrange(p1 as int, p1 + f.len()) == f
                && (p1 + f.len() == s.len() || !spec_is_digit(s[p1 + f.len()])))
        } ==> step2 == Some((v, (p1 + spec_field(lit_key_max_health(), v).len()) as usize))),
        step2 == Some((v2, p2)),
        (forall|v: u32| #![trigger spec_digits(v as int)] {
            let f = spec_field(lit_key_trail_damage(), v);
            (p2 + f.len() <= s.len() && s.subrange(p2 as int, p2 + f.len()) == f
                && (p2 + f.len() == s.len() || !spec_is_digit(s[p2 + f.len()])))
        } ==> step3 == Some((v, (p2 + spec_field(lit_key_trail_damage(), v).len()) as usize))),
        step3 == Some((v3, p3)),
        (forall|v: u32| #![trigger spec_digits(v as int)] {
            let f = spec_field(lit_key_shield(), v);
            (p3 + f.len() <= s.len() && s.subrange(p3 as int, p3 + f.len()) == f
                && (p3 + f.len() == s.len() || !spec_is_digit(s[p3 + f.len()])))
        } ==> step4 == Some((v, (p3 + spec_field(lit_key_shield(), v).len()) as usize))),
        step4 is None,
    ensures
        (forall|w: PurchasedUpgrades| #![trigger spec_encode_upgrades(w)] {
            let e = spec_encode_upgrades(w);
            !(pos + e.len() <= s.len() && s.subrange(pos as int, pos + e.len()) == e)
        }),
{
    assert forall|w: PurchasedUpgrades| #![trigger spec_encode_upgrades(w)] {
        let e = spec_encode_upgrades(w);
        !(pos + e.len() <= s.len() && s.subrange(pos as int, pos + e.len()) == e)
    } by {
        let e = spec_encode_upgrades(w);
        if pos + e.len() <= s.len() && s.subrange(pos as int, pos + e.len()) == e {
        let f1 = spec_field(lit_upg_open(), w.movement_speed_level);
        let f2 = spec_field(lit_key_max_health(), w.max_health_level);
        let f3 = spec_field(lit_key_trail_damage(), w.trail_damage_level);
        let f4 = spec_field(lit_key_shield(), w.shield_level);
        let f5 = spec_field(lit_key_knockback(), w.enemy_knockback_level);
        let q1 = pos + f1.len();
        let q2 = q1 + f2.len();
        let q3 = q2 + f3.len();
        let q4 = q3 + f4.len();
        let q5 = q4 + f5.len();
        lemma_upgrades_components(s, pos as int, w);
        lemma_digits_props(w.movement_speed_level as int);
        assert(step1 == Some((w.movement_speed_level, q1 as usize)));
        lemma_digits_props(w.max_health_level as int);
        assert(step2 == Some((w.max_health_level, q2 as usize)));
        lemma_digits_props(w.trail_damage_level as int);
        assert(step3 == Some((w.trail_damage_level, q3 as usize)));
        lemma_digits_props(w.shield_level as int);
        assert(step4 == Some((w.shield_level, q4 as usize)));
        assert(false);
        }
    }
}

/// If the canonical upgrades object sat at `pos`, parsing could not have
/// failed at its field number 5.
#[verifier::rlimit(100)]
proof fn lemma_upgrades_missing_5(
    s: Seq<u8>, pos: usize, v1: u32, p1: usize, v2: u32, p2: usize, v3: u32, p3: usize, v4: u32, p4: usize, step1: Option<(u32, usize)>, step2: Option<(u32, usize)>, step3: Option<(u32, usize)>, step4: Option<(u32, usize)>, step5: Option<(u32, usize)>,
)
    requires
        pos <= s.len(),
        s.len() <= usize::MAX,
        (forall|v: u32| #![trigger spec_digits(v as int)] {
            let f = spec_field(lit_upg_open(), v);
            (pos + f.len() <= s.len() && s.subrange(pos as int, pos + f.len()) == f
                && (pos + f.len() == s.len() || !spec_is_digit(s[pos + f.len()])))
        } ==> step1 == Some((v, (pos + spec_field(lit_upg_open(), v).len()) as usize))),
        step1 == Some((v1, p1)),
        (forall|v: u32| #![trigger spec_digits(v as int)] {
            let f = spec_field(lit_key_max_health(), v);
            (p1 + f.len() <= s.len() && s.subrange(p1 as int, p1 + f.len()) == f
                && (p1 + f.len() == s.len() || !spec_is_digit(s[p1 + f.len()])))
        } ==> step2 == Some((v, (p1 + spec_field(lit_key_max_health(), v).len()) as usize))),
        step2 == Some((v2, p2)),
        (forall|v: u32| #![trigger spec_digits(v as int)] {
            let f = spec_field(lit_key_trail_damage(), v);
            (p2 + f.len() <= s.len() && s.subrange(p2 as int, p2 + f.len()) == f
                && (p2 + f.len() == s.len() || !spec_is_digit(s[p2 + f.len()])))
        } ==> step3 == Some((v, (p2 + spec_field(lit_key_trail_damage(), v).len()) as usize))),
        step3 == Some((v3, p3)),
        (forall|v: u32| #![trigger spec_digits(v as int)] {
            let f = spec_field(lit_key_shield(), v);
            (p3 + f.len() <= s.len() && s.subrange(p3 as int, p3 + f.len()) == f
                && (p3 + f.len() == s.len() || !spec_is_digit(s[p3 + f.len()])))
        } ==> step4 == Some((v, (p3 + spec_field(lit_key_shield(), v).len()) as usize))),
        step4 == Some((v4, p4)),
        (forall|v: u32| #![trigger spec_digits(v as int)] {
            let f = spec_field(lit_key_knockback(), v);
            (p4 + f.len() <= s.len() && s.subrange(p4 as int, p4 + f.len()) == f
                && (p4 + f.len() == s.len() || !spec_is_digit(s[p4 + f.len()])))
        } ==> step5 == Some((v, (p4 + spec_field(lit_key_knockback(), v).len()) as usize))),
        step5 is None,
    ensures
        (forall|w: PurchasedUpgrades| #![trigger spec_encode_upgrades(w)] {
            let e = spec_encode_upgrades(w);
            !(pos + e.len() <= s.len() && s.subrange(pos as int, pos + e.len()) == e)
        }),
{
    assert forall|w: PurchasedUpgrades| #![trigger spec_encode_upgrades(w)] {
        let e = spec_encode_upgrades(w);
        !(pos + e.len() <= s.len() && s.subrange(pos as int, pos + e.len()) == e)
    } by {
        let e = spec_encode_upgrades(w);
        if pos + e.len() <= s.len() && s.subrange(pos as int, pos + e.len()) == e {
        let f1 = spec_field(lit_upg_open(), w.movement_speed_level);
        let f2 = spec_field(lit_key_max_health(), w.max_health_level);
        let f3 = spec_field(lit_key_trail_damage(), w.trail_damage_level);
        let f4 = spec_field(lit_key_shield(), w.shield_level);
        let f5 = spec_field(lit_key_knockback(), w.enemy_knockback_level);
        let q1 = pos + f1.len();
        let q2 = q1 + f2.len();
        let q3 = q2 + f3.len();
        let q4 = q3 + f4.len();
        let q5 = q4 + f5.len();
        lemma_upgrades_components(s, pos as int, w);
        lemma_digits_props(w.movement_speed_level as int);
        assert(step1 == Some((w.movement_speed_level, q1 as usize)));
        lemma_digits_props(w.max_health_level as int);
        assert(step2 == Some((w.max_health_level, q2 as usize)));
        lemma_digits_props(w.trail_damage_level as int);
        assert(step3 == Some((w.trail_damage_level, q3 as usize)));
        lemma_digits_props(w.shield_level as int);
        assert(step4 == Some((w.shield_level, q4 as usize)));
        lemma_digits_props(w.enemy_knockback_level as int);
        assert(step5 == Some((w.enemy_knockback_level, q5 as usize)));
        assert(false);
        }
    }
}

/// If the canonical upgrades object sat at `pos`, its closing brace would
/// sit right after the last field.
#[verifier::rlimit(100)]
proof fn lemma_upgrades_missing_brace(
    s: Seq<u8>, pos: usize, v1: u32, p1: usize, v2: u32, p2: usize, v3: u32, p3: usize, v4: u32, p4: usize, v5: u32, p5: usize, step1: Option<(u32, usize)>, step2: Option<(u32, usize)>, step3: Option<(u32, usize)>, step4: Option<(u32, usize)>, step5: Option<(u32, usize)>,
)
    requires
        pos <= s.len(),
        s.len() <= usize::MAX,
        (forall|v: u32| #![trigger spec_digits(v as int)] {
            let f = spec_field(lit_upg_open(), v);
            (pos + f.len() <= s.len() && s.subrange(pos as int, pos + f.len()) == f
                && (pos + f.len() == s.len() || !spec_is_digit(s[pos + f.len()])))
        } ==> step1 == Some((v, (pos + spec_field(lit_upg_open(), v).len()) as usize))),
        step1 == Some((v1, p1)),
        (forall|v: u32| #![trigger spec_digits(v as int)] {
            let f = spec_field(lit_key_max_health(), v);
            (p1 + f.len() <= s.len() && s.subrange(p1 as int, p1 + f.len()) == f
                && (p1 + f.len() == s.len() || !spec_is_digit(s[p1 + f.len()])))
        } ==> step2 == Some((v, (p1 + spec_field(lit_key_max_health(), v).len()) as usize))),
        step2 == Some((v2, p2)),
        (forall|v: u32| #![trigger spec_digits(v as int)] {
            let f = spec_field(lit_key_trail_damage(), v);
            (p2 + f.len() <= s.len() && s.subrange(p2 as int, p2 + f.len()) == f
                && (p2 + f.len() == s.len() || !spec_is_digit(s[p2 + f.len()])))
        } ==> step3 == Some((v, (p2 + spec_field(lit_key_trail_damage(), v).len()) as usize))),
        step3 == Some((v3, p3)),
        (forall|v: u32| #![trigger spec_digits(v as int)] {
            let f = spec_field(lit_key_shield(), v);
            (p3 + f.len() <= s.len() && s.subrange(p3 as int, p3 + f.len()) == f
                && (p3 + f.len() == s.len() || !spec_is_digit(s[p3 + f.len()])))
        } ==> step4 == Some((v, (p3 + spec_field(lit_key_shield(), v).len()) as usize))),
        step4 == Some((v4, p4)),
        (forall|v: u32| #![trigger spec_digits(v as int)] {
            let f = spec_field(lit_key_knockback(), v);
            (p4 + f.len() <= s.len() && s.subrange(p4 as int, p4 + f.len()) == f
                && (p4 + f.len() == s.len() || !spec_is_digit(s[p4 + f.len()])))
        } ==> step5 == Some((v, (p4 + spec_field(lit_key_knockback(), v).len()) as usize))),
        step5 == Some((v5, p5)),
        !(p5 + 1 <= s.len() && s.subrange(p5 as int, p5 + 1) == lit_close_brace()),
    ensures
        (forall|w: PurchasedUpgrades| #![trigger spec_encode_upgrades(w)] {
            let e = spec_encode_upgrades(w);
            !(pos + e.len() <= s.len() && s.subrange(pos as int, pos + e.len()) == e)
        }),
{
    assert forall|w: PurchasedUpgrades| #![trigger spec_encode_upgrades(w)] {
        let e = spec_encode_upgrades(w);
        !(pos + e.len() <= s.len() && s.subrange(pos as int, pos + e.len()) == e)
    } by {
        let e = spec_encode_upgrades(w);
        if pos + e.len() <= s.len() && s.subrange(pos as int, pos + e.len()) == e {
        let f1 = spec_field(lit_upg_open(), w.movement_speed_level);
        let f2 = spec_field(lit_key_max_health(), w.max_health_level);
        let f3 = spec_field(lit_key_trail_damage(), w.trail_damage_level);
        let f4 = spec_field(lit_key_shield(), w.shield_level);
        let f5 = spec_field(lit_key_knockback(), w.enemy_knockback_level);
        let q1 = pos + f1.len();
        let q2 = q1 + f2.len();
        let q3 = q2 + f3.len();
        let q4 = q3 + f4.len();
        let q5 = q4 + f5.len();
        lemma_upgrades_components(s, pos as int, w);
        lemma_digits_props(w.movement_speed_level as int);
        assert(step1 == Some((w.movement_speed_level, q1 as usize)));
        lemma_digits_props(w.max_health_level as int);
        assert(step2 == Some((w.max_health_level, q2 as usize)));
        lemma_digits_props(w.trail_damage_level as int);
        assert(step3 == Some((w.trail_damage_level, q3 as usize)));
        lemma_digits_props(w.shield_level as int);
        assert(step4 == Some((w.shield_level, q4 as usize)));
        lemma_digits_props(w.enemy_knockback_level as int);
        assert(step5 == Some((w.enemy_knockback_level, q5 as usize)));
            assert(p5 == q5);
            assert(s.subrange(q5 as int, q5 + 1) == lit_close_brace());
            assert(false);
        }
    }
}

/// Where the canonical upgrades object of some `w` sits at `pos` and all
/// five fields parsed, the parsed values are `w`'s and the object ends
/// right after the brace.
#[verifier::rlimit(100)]
proof fn lemma_upgrades_forces(
    s: Seq<u8>, pos: usize, v1: u32, p1: usize, v2: u32, p2: usize, v3: u32, p3: usize, v4: u32, p4: usize, v5: u32, p5: usize, step1: Option<(u32, usize)>, step2: Option<(u32, usize)>, step3: Option<(u32, usize)>, step4: Option<(u32, usize)>, step5: Option<(u32, usize)>,
)
    requires
        pos <= s.len(),
        s.len() <= usize::MAX,
        (forall|v: u32| #![trigger spec_digits(v as int)] {
            let f = spec_field(lit_upg_open(), v);
            (pos + f.len() <= s.len() && s.subrange(pos as int, pos + f.len()) == f
                && (pos + f.len() == s.len() || !spec_is_digit(s[pos + f.len()])))
        } ==> step1 == Some((v, (pos + spec_field(lit_upg_open(), v).len()) as usize))),
        step1 == Some((v1, p1)),
        (forall|v: u32| #![trigger spec_digits(v as int)] {
            let f = spec_field(lit_key_max_health(), v);
            (p1 + f.len() <= s.len() && s.subrange(p1 as int, p1 + f.len()) == f
                && (p1 + f.len() == s.len() || !spec_is_digit(s[p1 + f.len()])))
        } ==> step2 == Some((v, (p1 + spec_field(lit_key_max_health(), v).len()) as usize))),
        step2 == Some((v2, p2)),
        (forall|v: u32| #![trigger spec_digits(v as int)] {
            let f = spec_field(lit_key_trail_damage(), v);
            (p2 + f.len() <= s.len() && s.subrange(p2 as int, p2 + f.len()) == f
                && (p2 + f.len() == s.len() || !spec_is_digit(s[p2 + f.len()])))
        } ==> step3 == Some((v, (p2 + spec_field(lit_key_trail_damage(), v).len()) as usize))),
        step3 == Some((v3, p3)),
        (forall|v: u32| #![trigger spec_digits(v as int)] {
            let f = spec_field(lit_key_shield(), v);
            (p3 + f.len() <= s.len() && s.subrange(p3 as int, p3 + f.len()) == f
                && (p3 + f.len() == s.len() || !spec_is_digit(s[p3 + f.len()])))
        } ==> step4 == Some((v, (p3 + spec_field(lit_key_shield(), v).len()) as usize))),
        step4 == Some((v4, p4)),
        (forall|v: u32| #![trigger spec_digits(v as int)] {
            let f = spec_field(lit_key_knockback(), v);
            (p4 + f.len() <= s.len() && s.subrange(p4 as int, p4 + f.len()) == f
                && (p4 + f.len() == s.len() || !spec_is_digit(s[p4 + f.len()])))
        } ==> step5 == Some((v, (p4 + spec_field(lit_key_knockback(), v).len()) as usize))),
        step5 == Some((v5, p5)),
        step5 == Some((v5, p5)),
    ensures
        (forall|w: PurchasedUpgrades| #![trigger spec_encode_upgrades(w)] {
            let e = spec_encode_upgrades(w);
            (pos + e.len() <= s.len() && s.subrange(pos as int, pos + e.len()) == e)
        } ==> (w == (PurchasedUpgrades {
            movement_speed_level: v1,
            max_health_level: v2,
            trail_damage_level: v3,
            shield_level: v4,
            enemy_knockback_level: v5,
        }) && pos + spec_encode_upgrades(w).len() == p5 + 1)),
{
    assert forall|w: PurchasedUpgrades| #![trigger spec_encode_upgrades(w)] {
        let e = spec_encode_upgrades(w);
        (pos + e.len() <= s.len() && s.subrange(pos as int, pos + e.len()) == e)
    } implies (w == (PurchasedUpgrades {
        movement_speed_level: v1,
        max_health_level: v2,
        trail_damage_level: v3,
        shield_level: v4,
        enemy_knockback_level: v5,
    }) && pos + spec_encode_upgrades(w).len() == p5 + 1) by {
        let e = spec_encode_upgrades(w);
        let f1 = spec_field(lit_upg_open(), w.movement_speed_level);
        let f2 = spec_field(lit_key_max_health(), w.max_health_level);
        let f3 = spec_field(lit_key_trail_damage(), w.trail_damage_level);
        let f4 = spec_field(lit_key_shield(), w.shield_level);
        let f5 = spec_field(lit_key_knockback(), w.enemy_knockback_level);
        let q1 = pos + f1.len();
        let q2 = q1 + f2.len();
        let q3 = q2 + f3.len();
        let q4 = q3 + f4.len();
        let q5 = q4 + f5.len();
        lemma_upgrades_components(s, pos as int, w);
        lemma_digits_props(w.movement_speed_level as int);
        assert(step1 == Some((w.movement_speed_level, q1 as usize)));
        lemma_digits_props(w.max_health_level as int);
        assert(step2 == Some((w.max_health_level, q2 as usize)));
        lemma_digits_props(w.trail_damage_level as int);
        assert(step3 == Some((w.trail_damage_level, q3 as usize)));
        lemma_digits_props(w.shield_level as int);
        assert(step4 == Some((w.shield_level, q4 as usize)));
        lemma_digits_props(w.enemy_knockback_level as int);
        assert(step5 == Some((w.enemy_knockback_level, q5 as usize)));
        assert(p5 == q5);
        assert(e.len() == f1.len() + f2.len() + f3.len() + f4.len() + f5.len() + 1);
    }
}


/// Splicing adjacent subranges back together yields the concatenation.
proof fn lemma_glue_six(
    s: Seq<u8>,
    p0: int,
    p1: int,
    p2: int,
    p3: int,
    p4: int,
    p5: int,
    p6: int,
    c1: Seq<u8>,
    c2: Seq<u8>,
    c3: Seq<u8>,
    c4: Seq<u8>,
    c5: Seq<u8>,
    c6: Seq<u8>,
)
    requires
        0 <= p0 <= p1 <= p2 <= p3 <= p4 <= p5 <= p6 <= s.len(),
        s.subrange(p0, p1) == c1,
        s.subrange(p1, p2) == c2,
        s.subrange(p2, p3) == c3,
        s.subrange(p3, p4) == c4,
        s.subrange(p4, p5) == c5,
        s.subrange(p5, p6) == c6,
    ensures
        s.subrange(p0, p6) == c1 + c2 + c3 + c4 + c5 + c6,
{
    assert(c1.len() == p1 - p0);
    assert(c2.len() == p2 - p1);
    assert(c3.len() == p3 - p2);
    assert(c4.len() == p4 - p3);
    assert(c5.len() == p5 - p4);
    assert(c6.len() == p6 - p5);
    assert(s.subrange(p0, p6) =~= c1 + c2 + c3 + c4 + c5 + c6) by {
        assert(forall|i: int| p0 <= i < p1 ==> s[i] == #[trigger] c1[i - p0]) by {
            assert(forall|i: int| p0 <= i < p1 ==> #[trigger] s.subrange(p0, p1)[i - p0]
                == s[i]);
        }
        assert(forall|i: int| p1 <= i < p2 ==> s[i] == #[trigger] c2[i - p1]) by {
            assert(forall|i: int| p1 <= i < p2 ==> #[trigger] s.subrange(p1, p2)[i - p1]
                == s[i]);
        }
        assert(forall|i: int| p2 <= i < p3 ==> s[i] == #[trigger] c3[i - p2]) by {
            assert(forall|i: int| p2 <= i < p3 ==> #[trigger] s.subrange(p2, p3)[i - p2]
                == s[i]);
        }
        assert(forall|i: int| p3 <= i < p4 ==> s[i] == #[trigger] c4[i - p3]) by {
            assert(forall|i: int| p3 <= i < p4 ==> #[trigger] s.subrange(p3, p4)[i - p3]
                == s[i]);
        }
        assert(forall|i: int| p4 <= i < p5 ==> s[i] == #[trigger] c5[i - p4]) by {
            assert(forall|i: int| p4 <= i < p5 ==> #[trigger] s.subrange(p4, p5)[i - p4]
                == s[i]);
        }
        assert(forall|i: int| p5 <= i < p6 ==> s[i] == #[trigger] c6[i - p5]) by {
            assert(forall|i: int| p5 <= i < p6 ==> #[trigger] s.subrange(p5, p6)[i - p5]
                == s[i]);
        }
    }
}

/// Where the canonical upgrades object sits at `pos`, each key literal and
/// digit run sits at its fixed offset, each digit run is followed by the
/// next key's comma or the closing brace, and the closing brace ends it.
#[verifier::rlimit(100)]
proof fn lemma_upgrades_components(s: Seq<u8>, pos: int, w: PurchasedUpgrades)
    requires
        pos >= 0,
        pos + spec_encode_upgrades(w).len() <= s.len(),
        s.subrange(pos, pos + spec_encode_upgrades(w).len()) == spec_encode_upgrades(w),
    ensures
        ({
            let f1 = spec_field(lit_upg_open(), w.movement_speed_level);
            let f2 = spec_field(lit_key_max_health(), w.max_health_level);
            let f3 = spec_field(lit_key_trail_damage(), w.trail_damage_level);
            let f4 = spec_field(lit_key_shield(), w.shield_level);
            let f5 = spec_field(lit_key_knockback(), w.enemy_knockback_level);
            let q1 = pos + f1.len();
            let q2 = q1 + f2.len();
            let q3 = q2 + f3.len();
            let q4 = q3 + f4.len();
            let q5 = q4 + f5.len();
            &&& q5 + 1 == pos + spec_encode_upgrades(w).len()
            &&& s.subrange(pos, q1) == f1
            &&& s.subrange(q1, q2) == f2
            &&& s.subrange(q2, q3) == f3
            &&& s.subrange(q3, q4) == f4
            &&& s.subrange(q4, q5) == f5
            &&& s.subrange(q5, q5 + 1) == lit_close_brace()
            &&& s[q1] == 44
            &&& s[q2] == 44
            &&& s[q3] == 44
            &&& s[q4] == 44
            &&& s[q5] == 125
        }),
{
    let e = spec_encode_upgrades(w);
    let f1 = spec_field(lit_upg_open(), w.movement_speed_level);
    let f2 = spec_field(lit_key_max_health(), w.max_health_level);
    let f3 = spec_field(lit_key_trail_damage(), w.trail_damage_level);
    let f4 = spec_field(lit_key_shield(), w.shield_level);
    let f5 = spec_field(lit_key_knockback(), w.enemy_knockback_level);
    let q1 = pos + f1.len();
    let q2 = q1 + f2.len();
    let q3 = q2 + f3.len();
    let q4 = q3 + f4.len();
    let q5 = q4 + f5.len();
    assert(e.len() == f1.len() + f2.len() + f3.len() + f4.len() + f5.len() + 1);
    assert(forall|i: int| pos <= i < pos + e.len() ==> #[trigger] s[i] == e[i - pos]) by {
        assert(forall|i: int| pos <= i < pos + e.len() ==> #[trigger] s.subrange(
            pos,
            pos + e.len(),
        )[i - pos] == s[i]);
    }
    assert(s.subrange(pos, q1) =~= f1);
    assert(s.subrange(q1, q2) =~= f2);
    assert(s.subrange(q2, q3) =~= f3);
    assert(s.subrange(q3, q4) =~= f4);
    assert(s.subrange(q4, q5) =~= f5);
    assert(s.subrange(q5, q5 + 1) =~= lit_close_brace());
    assert(s[q1] == f2[0]);
    assert(s[q2] == f3[0]);
    assert(s[q3] == f4[0]);
    assert(s[q4] == f5[0]);
    assert(s[q5] == lit_close_brace()[0]);
}

/// Where a combined document is the whole input, its parts sit at their
/// fixed offsets.
#[verifier::rlimit(100)]
proof fn lemma_state_components(s: Seq<u8>, c: u32, u: PurchasedUpgrades)
    requires
        s == spec_encode_state(c, u),
    ensures
        ({
            let f1 = spec_field(lit_cur_open(), c);
            let q1: int = f1.len() as int;
            let q2 = q1 + lit_upg_key().len();
            let q3 = q2 + spec_encode_upgrades(u).len();
            &&& q3 + 1 == s.len()
            &&& s.subrange(0, q1) == f1
            &&& s.subrange(q1, q2) == lit_upg_key()
            &&& s.subrange(q2, q3) == spec_encode_upgrades(u)
            &&& s.subrange(q3, q3 + 1) == lit_close_brace()
            &&& s[q1] == 44
        }),
{
    let f1 = spec_field(lit_cur_open(), c);
    let q1: int = f1.len() as int;
    let q2 = q1 + lit_upg_key().len();
    let q3 = q2 + spec_encode_upgrades(u).len();
    assert(s.len() == f1.len() + lit_upg_key().len() + spec_encode_upgrades(u).len() + 1);
    assert(s.subrange(0, q1) =~= f1);
    assert(s.subrange(q1, q2) =~= lit_upg_key());
    assert(s.subrange(q2, q3) =~= spec_encode_upgrades(u));
    assert(s.subrange(q3, q3 + 1) =~= lit_close_brace());
    assert(s[q1] == lit_upg_key()[0]);
}

/// Step pinning for the combined document decoder.
#[verifier::rlimit(100)]
proof fn lemma_state_missing_1(
    s: Seq<u8>, step1: Option<(u32, usize)>,
)
    requires
        s.len() <= usize::MAX,
        (forall|v: u32| #![trigger spec_digits(v as int)] {
            let f = spec_field(lit_cur_open(), v);
            (f.len() <= s.len() && s.subrange(0, f.len() as int) == f
                && (f.len() == s.len() || !spec_is_digit(s[f.len() as int])))
        } ==> step1 == Some((v, spec_field(lit_cur_open(), v).len() as usize))),
        step1 is None,
    ensures
        (forall|c: u32, u: PurchasedUpgrades| #![trigger spec_encode_state(c, u)]
            s != spec_encode_state(c, u)),
{
    assert forall|c: u32, u: PurchasedUpgrades| #![trigger spec_encode_state(c, u)]
        s != spec_encode_state(c, u) by {
        if s == spec_encode_state(c, u) {
        let f1 = spec_field(lit_cur_open(), c);
        let q1: int = f1.len() as int;
        let q2 = q1 + lit_upg_key().len();
        let q3 = q2 + spec_encode_upgrades(u).len();
        lemma_state_components(s, c, u);
        lemma_digits_props(c as int);
        assert(step1 == Some((c, q1 as usize)));
            assert(false);
        }
    }
}

/// Step pinning for the combined document decoder.
#[verifier::rlimit(100)]
proof fn lemma_state_missing_key(
    s: Seq<u8>, v1: u32, p1: usize, step1: Option<(u32, usize)>, stepb: Option<usize>,
)
    requires
        s.len() <= usize::MAX,
        (forall|v: u32| #![trigger spec_digits(v as int)] {
            let f = spec_field(lit_cur_open(), v);
            (f.len() <= s.len() && s.subrange(0, f.len() as int) == f
                && (f.len() == s.len() || !spec_is_digit(s[f.len() as int])))
        } ==> step1 == Some((v, spec_field(lit_cur_open(), v).len() as usize))),
        (step1 == Some((v1, p1))),
        (stepb is Some <==> (p1 + lit_upg_key().len() <= s.len() && s.subrange(
            p1 as int,
            p1 + lit_upg_key().len(),
        ) == lit_upg_key())),
        (stepb is Some ==> stepb->Some_0 == p1 + lit_upg_key().len()),
        stepb is None,
    ensures
        (forall|c: u32, u: PurchasedUpgrades| #![trigger spec_encode_state(c, u)]
            s != spec_encode_state(c, u)),
{
    assert forall|c: u32, u: PurchasedUpgrades| #![trigger spec_encode_state(c, u)]
        s != spec_encode_state(c, u) by {
        if s == spec_encode_state(c, u) {
        let f1 = spec_field(lit_cur_open(), c);
        let q1: int = f1.len() as int;
        let q2 = q1 + lit_upg_key().len();
        let q3 = q2 + spec_encode_upgrades(u).len();
        lemma_state_components(s, c, u);
        lemma_digits_props(c as int);
        assert(step1 == Some((c, q1 as usize)));
        assert(p1 == q1);
        assert(stepb == Some(q2 as usize));
            assert(false);
        }
    }
}

/// Step pinning for the combined document decoder.
#[verifier::rlimit(100)]
proof fn lemma_state_missing_upgrades(
    s: Seq<u8>, v1: u32, p1: usize, p2: usize, step1: Option<(u32, usize)>, stepb: Option<usize>, stepu: Option<(PurchasedUpgrades, usize)>,
)
    requires
        s.len() <= usize::MAX,
        (forall|v: u32| #![trigger spec_digits(v as int)] {
            let f = spec_field(lit_cur_open(), v);
            (f.len() <= s.len() && s.subrange(0, f.len() as int) == f
                && (f.len() == s.len() || !spec_is_digit(s[f.len() as int])))
        } ==> step1 == Some((v, spec_field(lit_cur_open(), v).len() as usize))),
        (step1 == Some((v1, p1))),
        (stepb is Some <==> (p1 + lit_upg_key().len() <= s.len() && s.subrange(
            p1 as int,
            p1 + lit_upg_key().len(),
        ) == lit_upg_key())),
        (stepb is Some ==> stepb->Some_0 == p1 + lit_upg_key().len()),
        (stepb == Some(p2)),
        (forall|u: PurchasedUpgrades| #![trigger spec_encode_upgrades(u)] {
            let e = spec_encode_upgrades(u);
            (p2 + e.len() <= s.len() && s.subrange(p2 as int, p2 + e.len()) == e)
        } ==> stepu == Some((u, (p2 + spec_encode_upgrades(u).len()) as usize))),
        stepu is None,
    ensures
        (forall|c: u32, u: PurchasedUpgrades| #![trigger spec_encode_state(c, u)]
            s != spec_encode_state(c, u)),
{
    assert forall|c: u32, u: PurchasedUpgrades| #![trigger spec_encode_state(c, u)]
        s != spec_encode_state(c, u) by {
        if s == spec_encode_state(c, u) {
        let f1 = spec_field(lit_cur_open(), c);
        let q1: int = f1.len() as int;
        let q2 = q1 + lit_upg_key().len();
        let q3 = q2 + spec_encode_upgrades(u).len();
        lemma_state_components(s, c, u);
        lemma_digits_props(c as int);
        assert(step1 == Some((c, q1 as usize)));
        assert(p1 == q1);
        assert(stepb == Some(q2 as usize));
        assert(p2 == q2);
        assert(stepu == Some((u, q3 as usize)));
            assert(false);
        }
    }
}

/// Step pinning for the combined document decoder.
#[verifier::rlimit(100)]
proof fn lemma_state_missing_close(
    s: Seq<u8>, v1: u32, p1: usize, p2: usize, uu: PurchasedUpgrades, p3: usize, step1: Option<(u32, usize)>, stepb: Option<usize>, stepu: Option<(PurchasedUpgrades, usize)>, stepc: Option<usize>,
)
    requires
        s.len() <= usize::MAX,
        (forall|v: u32| #![trigger spec_digits(v as int)] {
            let f = spec_field(lit_cur_open(), v);
            (f.len() <= s.len() && s.subrange(0, f.len() as int) == f
                && (f.len() == s.len() || !spec_is_digit(s[f.len() as int])))
        } ==> step1 == Some((v, spec_field(lit_cur_open(), v).len() as usize))),
        (step1 == Some((v1, p1))),
        (stepb is Some <==> (p1 + lit_upg_key().len() <= s.len() && s.subrange(
            p1 as int,
            p1 + lit_upg_key().len(),
        ) == lit_upg_key())),
        (stepb is Some ==> stepb->Some_0 == p1 + lit_upg_key().len()),
        (stepb == Some(p2)),
        (forall|u: PurchasedUpgrades| #![trigger spec_encode_upgrades(u)] {
            let e = spec_encode_upgrades(u);
            (p2 + e.len() <= s.len() && s.subrange(p2 as int, p2 + e.len()) == e)
        } ==> stepu == Some((u, (p2 + spec_encode_upgrades(u).len()) as usize))),
        (stepu == Some((uu, p3))),
        (stepc is Some <==> (p3 + 1 <= s.len() && s.subrange(p3 as int, p3 + 1)
            == lit_close_brace())),
        (stepc is Some ==> stepc->Some_0 == p3 + 1),
        stepc is None,
    ensures
        (forall|c: u32, u: PurchasedUpgrades| #![trigger spec_encode_state(c, u)]
            s != spec_encode_state(c, u)),
{
    assert forall|c: u32, u: PurchasedUpgrades| #![trigger spec_encode_state(c, u)]
        s != spec_encode_state(c, u) by {
        if s == spec_encode_state(c, u) {
        let f1 = spec_field(lit_cur_open(), c);
        let q1: int = f1.len() as int;
        let q2 = q1 + lit_upg_key().len();
        let q3 = q2 + spec_encode_upgrades(u).len();
        lemma_state_components(s, c, u);
        lemma_digits_props(c as int);
        assert(step1 == Some((c, q1 as usize)));
        assert(p1 == q1);
        assert(stepb == Some(q2 as usize));
        assert(p2 == q2);
        assert(stepu == Some((u, q3 as usize)));
        assert(p3 == q3);
        assert(stepc == Some((q3 + 1) as usize));
            assert(false);
        }
    }
}

/// Step pinning for the combined document decoder.
#[verifier::rlimit(100)]
proof fn lemma_state_forces(
    s: Seq<u8>, v1: u32, p1: usize, p2: usize, uu: PurchasedUpgrades, p3: usize, step1: Option<(u32, usize)>, stepb: Option<usize>, stepu: Option<(PurchasedUpgrades, usize)>, stepc: Option<usize>,
)
    requires
        s.len() <= usize::MAX,
        (forall|v: u32| #![trigger spec_digits(v as int)] {
            let f = spec_field(lit_cur_open(), v);
            (f.len() <= s.len() && s.subrange(0, f.len() as int) == f
                && (f.len() == s.len() || !spec_is_digit(s[f.len() as int])))
        } ==> step1 == Some((v, spec_field(lit_cur_open(), v).len() as usize))),
        (step1 == Some((v1, p1))),
        (stepb is Some <==> (p1 + lit_upg_key().len() <= s.len() && s.subrange(
            p1 as int,
            p1 + lit_upg_key().len(),
        ) == lit_upg_key())),
        (stepb is Some ==> stepb->Some_0 == p1 + lit_upg_key().len()),
        (stepb == Some(p2)),
        (forall|u: PurchasedUpgrades| #![trigger spec_encode_upgrades(u)] {
            let e = spec_encode_upgrades(u);
            (p2 + e.len() <= s.len() && s.subrange(p2 as int, p2 + e.len()) == e)
        } ==> stepu == Some((u, (p2 + spec_encode_upgrades(u).len()) as usize))),
        (stepu == Some((uu, p3))),
        (stepc is Some <==> (p3 + 1 <= s.len() && s.subrange(p3 as int, p3 + 1)
            == lit_close_brace())),
        (stepc is Some ==> stepc->Some_0 == p3 + 1),
    ensures
        (forall|c: u32, u: PurchasedUpgrades| #![trigger spec_encode_state(c, u)]
            s == spec_encode_state(c, u) ==> (c == v1 && u == uu && p3 + 1 == s.len())),
{
    assert forall|c: u32, u: PurchasedUpgrades| #![trigger spec_encode_state(c, u)]
        s == spec_encode_state(c, u) implies (c == v1 && u == uu && p3 + 1 == s.len()) by {
        let f1 = spec_field(lit_cur_open(), c);
        let q1: int = f1.len() as int;
        let q2 = q1 + lit_upg_key().len();
        let q3 = q2 + spec_encode_upgrades(u).len();
        lemma_state_components(s, c, u);
        lemma_digits_props(c as int);
        assert(step1 == Some((c, q1 as usize)));
        assert(p1 == q1);
        assert(stepb == Some(q2 as usize));
        assert(p2 == q2);
        assert(stepu == Some((u, q3 as usize)));
        assert(p3 == q3);
        assert(stepc == Some((q3 + 1) as usize));
        assert(s.len() == q3 + 1);
    }
}

/// Reads the whole combined document. Succeeds exactly on the byte form
/// `save_state` writes, as `spec_decode_state` states.
fn decode_state(s: &[u8]) -> (r: Option<(u32, PurchasedUpgrades)>)
    ensures
        r == spec_decode_state(s@),
{
    let slen = s.len();
    proof {
        assert(s@.len() == slen);
    }
    let cur_lit = lit_vec_cur_open();
    let upg_key_lit = lit_vec_upg_key();
    let close_lit = lit_vec_close_brace();

    let step1 = parse_key_number(s, 0, cur_lit.as_slice());
    let (v1, p1) = match step1 {
        Some(x) => x,
        None => {
            proof {
                lemma_state_missing_1(s@, step1);
                lemma_no_state_match(s@);
            }
            return None;
        },
    };
    let stepb = expect_prefix(s, p1, upg_key_lit.as_slice());
    let p2 = match stepb {
        Some(x) => x,
        None => {
            proof {
                lemma_state_missing_key(s@, v1, p1, step1, stepb);
                lemma_no_state_match(s@);
            }
            return None;
        },
    };
    let stepu = decode_upgrades_at(s, p2);
    let (uu, p3) = match stepu {
        Some(x) => x,
        None => {
            proof {
                lemma_state_missing_upgrades(s@, v1, p1, p2, step1, stepb, stepu);
                lemma_no_state_match(s@);
            }
            return None;
        },
    };
    let stepc = expect_prefix(s, p3, close_lit.as_slice());
    let end = match stepc {
        Some(x) => x,
        None => {
            proof {
                lemma_state_missing_close(s@, v1, p1, p2, uu, p3, step1, stepb, stepu, stepc);
                lemma_no_state_match(s@);
            }
            return None;
        },
    };
    if end != slen {
        proof {
            lemma_state_forces(s@, v1, p1, p2, uu, p3, step1, stepb, stepu, stepc);
            assert forall|c: u32, u: PurchasedUpgrades| #![trigger spec_encode_state(c, u)]
                s@ != spec_encode_state(c, u) by {
                if s@ == spec_encode_state(c, u) {
                    assert(p3 + 1 == s@.len());
                    assert(end == p3 + 1);
                }
            }
            lemma_no_state_match(s@);
        }
        return None;
    }
    proof {
        assert(s@.subrange(0, end as int) =~= s@);
        assert(s@ =~= spec_field(lit_cur_open(), v1) + lit_upg_key() + spec_encode_upgrades(
            uu,
        ) + lit_close_brace()) by {
            assert(s@.subrange(p3 as int, p3 as int) =~= Seq::<u8>::empty());
            lemma_glue_six(
                s@,
                0,
                p1 as int,
                p2 as int,
                p3 as int,
                p3 as int,
                p3 as int,
                end as int,
                spec_field(lit_cur_open(), v1),
                lit_upg_key(),
                spec_encode_upgrades(uu),
                Seq::<u8>::empty(),
                Seq::<u8>::empty(),
                lit_close_brace(),
            );
            assert(spec_field(lit_cur_open(), v1) + lit_upg_key() + spec_encode_upgrades(uu)
                + Seq::<u8>::empty() + Seq::<u8>::empty() + lit_close_brace()
                =~= spec_field(lit_cur_open(), v1) + lit_upg_key() + spec_encode_upgrades(uu)
                + lit_close_brace());
        }
        assert(s@ == spec_encode_state(v1, uu));
        let p = choose|p: (u32, PurchasedUpgrades)| s@ == #[trigger] spec_encode_state(
            p.0,
            p.1,
        );
        assert(s@ == spec_encode_state(((v1, uu)).0, ((v1, uu)).1));
        lemma_encode_state_injective(v1, uu, p.0, p.1);
    }
    Some((v1, uu))
}

/// Where nothing encodes to `s`, the specified decoding is `None`.
proof fn lemma_no_state_match(s: Seq<u8>)
    requires
        (forall|c: u32, u: PurchasedUpgrades| #![trigger spec_encode_state(c, u)]
            s != spec_encode_state(c, u)),
    ensures
        spec_decode_state(s) is None,
{
    if spec_decode_state(s) is Some {
        let p = choose|p: (u32, PurchasedUpgrades)| s == #[trigger] spec_encode_state(
            p.0,
            p.1,
        );
        assert(s != spec_encode_state(p.0, p.1));
    }
}

/// Where nothing encodes to `s`, the specified upgrades decoding is `None`.
proof fn lemma_no_upgrades_match(s: Seq<u8>)
    requires
        (forall|u: PurchasedUpgrades| #![trigger spec_encode_upgrades(u)]
            s != spec_encode_upgrades(u)),
    ensures
        spec_decode_upgrades(s) is None,
{
    if spec_decode_upgrades(s) is Some {
        let u = choose|u: PurchasedUpgrades| s == #[trigger] spec_encode_upgrades(u);
        assert(s != spec_encode_upgrades(u));
    }
}

/// Reads a whole upgrades object. Succeeds exactly on the byte form
/// `save_upgrades` writes, as `spec_decode_upgrades` states.
fn decode_upgrades(s: &[u8]) -> (r: Option<PurchasedUpgrades>)
    ensures
        r == spec_decode_upgrades(s@),
{
    let slen = s.len();
    proof {
        assert(s@.len() == slen);
        assert(s@.subrange(0, slen as int) =~= s@);
    }
    match decode_upgrades_at(s, 0) {
        Some((u, end)) => {
            if end == slen {
                proof {
                    let w = choose|w: PurchasedUpgrades| s@ == #[trigger] spec_encode_upgrades(
                        w,
                    );
                    assert(s@ == spec_encode_upgrades(u));
                    lemma_encode_upgrades_injective(u, w);
                }
                Some(u)
            } else {
                proof {
                    assert forall|w: PurchasedUpgrades| #![trigger spec_encode_upgrades(w)]
                        s@ != spec_encode_upgrades(w) by {
                        if s@ == spec_encode_upgrades(w) {
                            assert(spec_encode_upgrades(w).len() == s@.len());
                        }
                    }
                    lemma_no_upgrades_match(s@);
                }
                None
            }
        },
        None => {
            proof {
                assert forall|w: PurchasedUpgrades| #![trigger spec_encode_upgrades(w)]
                    s@ != spec_encode_upgrades(w) by {
                    if s@ == spec_encode_upgrades(w) {
                        assert(spec_encode_upgrades(w).len() == s@.len());
                    }
                }
                lemma_no_upgrades_match(s@);
            }
            None
        },
    }
}

/// Levels read back from storage, each cut to its kind's purchasable range.
pub open spec fn spec_clamp_upgrades(u: PurchasedUpgrades) -> PurchasedUpgrades {
    PurchasedUpgrades {
        movement_speed_level: spec_level_clamp(
            u.movement_speed_level,
            UpgradeType::MovementSpeed.spec_max_level(),
        ),
        max_health_level: spec_level_clamp(
            u.max_health_level,
            UpgradeType::MaxHealth.spec_max_level(),
        ),
        trail_damage_level: spec_level_clamp(
            u.trail_damage_level,
            UpgradeType::TrailDamage.spec_max_level(),
        ),
        shield_level: spec_level_clamp(
            u.shield_level,
            UpgradeType::ShieldDuration.spec_max_level(),
        ),
        enemy_knockback_level: spec_level_clamp(
            u.enemy_knockback_level,
            UpgradeType::EnemyKnockback.spec_max_level(),
        ),
    }
}

pub open spec fn spec_level_clamp(level: u32, cap: u32) -> u32 {
    if level <= cap {
        level
    } else {
        cap
    }
}

fn clamp_upgrades(u: &PurchasedUpgrades) -> (r: PurchasedUpgrades)
    ensures
        r == spec_clamp_upgrades(*u),
        r.wf(),
{
    PurchasedUpgrades {
        movement_speed_level: level_clamp(
            u.movement_speed_level,
            UpgradeType::MovementSpeed.max_level(),
        ),
        max_health_level: level_clamp(u.max_health_level, UpgradeType::MaxHealth.max_level()),
        trail_damage_level: level_clamp(
            u.trail_damage_level,
            UpgradeType::TrailDamage.max_level(),
        ),
        shield_level: level_clamp(u.shield_level, UpgradeType::ShieldDuration.max_level()),
        enemy_knockback_level: level_clamp(
            u.enemy_knockback_level,
            UpgradeType::EnemyKnockback.max_level(),
        ),
    }
}

fn level_clamp(level: u32, cap: u32) -> (r: u32)
    ensures
        r == spec_level_clamp(level, cap),
{
    if level <= cap {
        level
    } else {
        cap
    }
}

/// Reads stored upgrade levels. Missing or corrupt data falls back to all
/// zero levels; a stored object is read exactly, with each level cut to
/// its kind's purchasable range.
pub fn load_upgrades(raw: Option<&[u8]>) -> (r: PurchasedUpgrades)
    ensures
        r.wf(),
        raw is None ==> r == (PurchasedUpgrades {
            movement_speed_level: 0u32,
            max_health_level: 0u32,
            trail_damage_level: 0u32,
            shield_level: 0u32,
            enemy_knockback_level: 0u32,
        }),
        raw is Some ==> r == (match spec_decode_upgrades(raw->0@) {
            Some(u) => spec_clamp_upgrades(u),
            None => (PurchasedUpgrades {
                movement_speed_level: 0u32,
                max_health_level: 0u32,
                trail_damage_level: 0u32,
                shield_level: 0u32,
                enemy_knockback_level: 0u32,
            }),
        }),
{
    match raw {
        None => PurchasedUpgrades::new_zero(),
        Some(bytes) => {
            match decode_upgrades(bytes) {
                Some(u) => clamp_upgrades(&u),
                None => PurchasedUpgrades::new_zero(),
            }
        },
    }
}

/// Reads a whole stored state document. Missing or corrupt data falls back
/// to a zero balance and zero levels; a stored document is read exactly,
/// with each level cut to its kind's purchasable range.
pub fn load_state(raw: Option<&[u8]>) -> (r: (u32, PurchasedUpgrades))
    ensures
        r.1.wf(),
        raw is None ==> r == (0u32, (PurchasedUpgrades {
            movement_speed_level: 0u32,
            max_health_level: 0u32,
            trail_damage_level: 0u32,
            shield_level: 0u32,
            enemy_knockback_level: 0u32,
        })),
        raw is Some ==> r == (match spec_decode_state(raw->0@) {
            Some((c, u)) => (c, spec_clamp_upgrades(u)),
            None => (0u32, (PurchasedUpgrades {
                movement_speed_level: 0u32,
                max_health_level: 0u32,
                trail_damage_level: 0u32,
                shield_level: 0u32,
                enemy_knockback_level: 0u32,
            })),
        }),
{
    match raw {
        None => (0, PurchasedUpgrades::new_zero()),
        Some(bytes) => {
            match decode_state(bytes) {
                Some((c, u)) => (c, clamp_upgrades(&u)),
                None => (0, PurchasedUpgrades::new_zero()),
            }
        },
    }
}

/// Reading back what was saved gives the same levels: persistence of the
/// upgrade levels is a round trip for every purchasable state.
pub proof fn lemma_save_load_upgrades(u: PurchasedUpgrades)
    requires
        u.wf(),
    ensures
        spec_decode_upgrades(spec_encode_upgrades(u)) == Some(u),
        spec_clamp_upgrades(u) == u,
{
    lemma_upgrades_round_trip(u);
}

/// Reading back a saved state document gives the same balance and levels.
pub proof fn lemma_save_load_state(c: u32, u: PurchasedUpgrades)
    requires
        u.wf(),
    ensures
        spec_decode_state(spec_encode_state(c, u)) == Some((c, u)),
        spec_clamp_upgrades(u) == u,
{
    lemma_state_round_trip(c, u);
}

/// Reading back a saved currency balance gives the same number.
pub proof fn lemma_save_load_currency(v: u32)
    ensures
        spec_parse_u32(spec_digits(v as int)) == Some(v),
{
    lemma_digits_props(v as int);
}

} // verus!
