//! Human-readable byte counts: a 1000-based magnitude with one decimal
//! digit and a metric unit prefix.

use vstd::prelude::*;
use vstd::arithmetic::div_mod::{lemma_div_denominator, lemma_fundamental_div_mod};
use crate::num::{dec_str, digit_char, digit_str, u64_to_string};

verus! {

pub open spec fn pow1000(i: nat) -> int
    decreases i,
{
    if i == 0 {
        1
    } else {
        1000 * pow1000((i - 1) as nat)
    }
}

/// The unit index for `n` bytes: the floor of the 1000-based logarithm,
/// taken as zero for counts below one thousand.
pub open spec fn iec_index(n: int) -> nat
    decreases n,
{
    if n < 1000 {
        0
    } else {
        1 + iec_index(n / 1000)
    }
}

pub open spec fn unit_seq(i: nat) -> Seq<char> {
    if i == 0 {
        Seq::<char>::empty()
    } else if i == 1 {
        seq!['k']
    } else if i == 2 {
        seq!['M']
    } else if i == 3 {
        seq!['G']
    } else if i == 4 {
        seq!['T']
    } else if i == 5 {
        seq!['P']
    } else if i == 6 {
        seq!['E']
    } else if i == 7 {
        seq!['Z']
    } else {
        seq!['Y']
    }
}

/// The scaled magnitude in tenths, rounded half-up.
pub open spec fn iec_tenths(n: int) -> int {
    (10 * n + pow1000(iec_index(n)) / 2) / pow1000(iec_index(n))
}

/// The rendering of a byte count: the scaled magnitude with exactly one
/// digit after the decimal point, then the unit prefix with no space.
pub open spec fn iec_spec(n: int) -> Seq<char> {
    dec_str(iec_tenths(n) / 10) + seq!['.'] + seq![digit_char(iec_tenths(n) % 10)] + unit_seq(
        iec_index(n),
    )
}

pub proof fn lemma_pow1000_pos(i: nat)
    ensures
        pow1000(i) >= 1,
    decreases i,
{
    if i > 0 {
        lemma_pow1000_pos((i - 1) as nat);
    }
}

/// The unit index is exactly the floor of the 1000-based logarithm:
/// `1000^i <= n < 1000^(i+1)` for positive `n`.
pub proof fn lemma_iec_index_floor(n: int)
    requires
        n >= 1,
    ensures
        pow1000(iec_index(n)) <= n < pow1000(iec_index(n) + 1),
    decreases n,
{
    if n < 1000 {
        assert(pow1000(0) == 1);
        assert(pow1000(1) == 1000);
    } else {
        let m = n / 1000;
        assert(1 <= m < n) by {
            lemma_fundamental_div_mod(n, 1000);
        }
        lemma_iec_index_floor(m);
        let k = iec_index(m);
        lemma_fundamental_div_mod(n, 1000);
        assert(1000 * pow1000(k) <= 1000 * m && 1000 * m <= n) by (nonlinear_arith)
            requires
                pow1000(k) <= m,
                n == 1000 * m + n % 1000,
                0 <= n % 1000,
        ;
        assert(pow1000(k + 1) == 1000 * pow1000(k));
        assert(n < 1000 * pow1000(k + 1)) by (nonlinear_arith)
            requires
                m < pow1000(k + 1),
                n == 1000 * m + n % 1000,
                n % 1000 < 1000,
        ;
        assert(pow1000(k + 2) == 1000 * pow1000(k + 1));
    }
}

proof fn lemma_pow1000_7_overflows()
    ensures
        pow1000(7) > u64::MAX,
{
    assert(pow1000(0) == 1);
    assert(pow1000(1) == 1000);
    assert(pow1000(2) == 1000000);
    assert(pow1000(3) == 1000000000);
    assert(pow1000(4) == 1000000000000);
    assert(pow1000(5) == 1000000000000000);
    assert(pow1000(6) == 1000000000000000000);
    assert(pow1000(7) == 1000000000000000000000);
}

/// Render a byte count with one decimal digit and a 1000-based unit prefix.
pub fn iec(n: u64) -> (r: String)
    ensures
        r@ == iec_spec(n as int),
{
    let mut i: u64 = 0;
    let mut m: u64 = n;
    let mut p: u64 = 1;
    while m >= 1000
        invariant
            iec_index(n as int) == i + iec_index(m as int),
            p as int == pow1000(i as nat),
            m as int == n as int / p as int,
            i <= 6,
        decreases m,
    {
        proof {
            lemma_pow1000_pos(i as nat);
            lemma_fundamental_div_mod(n as int, p as int);
            assert(p as int * 1000 <= p as int * m as int) by (nonlinear_arith)
                requires
                    m >= 1000,
                    p >= 1,
            ;
            assert(p as int * m as int <= n as int);
            lemma_div_denominator(n as int, p as int, 1000);
            if i >= 6 {
                lemma_pow1000_7_overflows();
                assert(pow1000(7) == 1000 * pow1000(6));
            }
            assert(iec_index(m as int) == 1 + iec_index(m as int / 1000));
        }
        m = m / 1000;
        p = p * 1000;
        i = i + 1;
    }
    proof {
        lemma_pow1000_pos(i as nat);
        lemma_fundamental_div_mod(n as int, p as int);
        assert(p as int * m as int <= n as int && (n as int) < p as int * 1000) by (nonlinear_arith)
            requires
                n as int == p as int * m as int + n as int % p as int,
                0 <= n as int % p as int,
                n as int % p as int <= p as int - 1,
                m < 1000,
                p >= 1,
        ;
    }
    let n128 = n as u128;
    let p128 = p as u128;
    let t128 = (n128 * 10 + p128 / 2) / p128;
    proof {
        let ti = (10 * n as int + p as int / 2) / p as int;
        assert(10 * n as int + p as int / 2 < 10001 * p as int) by (nonlinear_arith)
            requires
                (n as int) < p as int * 1000,
                p >= 1,
        ;
        assert(ti < 10001) by {
            lemma_fundamental_div_mod(10 * n as int + p as int / 2, p as int);
            assert(ti * p as int <= 10 * n as int + p as int / 2);
            assert(ti >= 10001 ==> ti * p as int >= 10001 * p as int) by (nonlinear_arith)
                requires
                    p >= 1,
            ;
        }
        assert(ti >= 0) by {
            lemma_fundamental_div_mod(10 * n as int + p as int / 2, p as int);
            assert(ti <= -1 ==> ti * p as int <= -1 * p as int) by (nonlinear_arith)
                requires
                    p >= 1,
            ;
        }
        assert(t128 as int == ti);
    }
    let t = t128 as u64;
    let whole = t / 10;
    let frac = t % 10;
    let mut out = u64_to_string(whole);
    out.append(".");
    out.append(digit_str(frac));
    let unit: &'static str = if i == 0 {
        ""
    } else if i == 1 {
        "k"
    } else if i == 2 {
        "M"
    } else if i == 3 {
        "G"
    } else if i == 4 {
        "T"
    } else if i == 5 {
        "P"
    } else {
        "E"
    };
    out.append(unit);
    proof {
        reveal_strlit(".");
        reveal_strlit("");
        reveal_strlit("k");
        reveal_strlit("M");
        reveal_strlit("G");
        reveal_strlit("T");
        reveal_strlit("P");
        reveal_strlit("E");
        assert("."@ =~= seq!['.']);
        assert(unit@ =~= unit_seq(iec_index(n as int)));
        assert(out@ =~= iec_spec(n as int));
    }
    out
}

} // verus!
