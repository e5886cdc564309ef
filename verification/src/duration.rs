//! Compact `XdYhZmWs` rendering of an elapsed-seconds count.

use vstd::prelude::*;
use vstd::arithmetic::div_mod::lemma_fundamental_div_mod;
use crate::num::{dec_str, is_digit_char, lemma_dec_str_digits, u64_to_string};
use crate::text::{esc_free, lemma_esc_free_concat};

verus! {

pub open spec fn days_of(n: int) -> int {
    n / 86400
}

pub open spec fn hours_of(n: int) -> int {
    (n % 86400) / 3600
}

pub open spec fn minutes_of(n: int) -> int {
    ((n % 86400) % 3600) / 60
}

pub open spec fn seconds_of(n: int) -> int {
    ((n % 86400) % 3600) % 60
}

/// The rendering of `n` seconds: each non-zero unit as `<value><letter> `
/// largest first, with zero units omitted; `0s ` for zero input.
pub open spec fn dhms_spec(n: int) -> Seq<char> {
    if n == 0 {
        seq!['0', 's', ' ']
    } else {
        (if days_of(n) != 0 {
            dec_str(days_of(n)) + seq!['d', ' ']
        } else {
            Seq::<char>::empty()
        }) + (if hours_of(n) != 0 {
            dec_str(hours_of(n)) + seq!['h', ' ']
        } else {
            Seq::<char>::empty()
        }) + (if minutes_of(n) != 0 {
            dec_str(minutes_of(n)) + seq!['m', ' ']
        } else {
            Seq::<char>::empty()
        }) + (if seconds_of(n) != 0 {
            dec_str(seconds_of(n)) + seq!['s', ' ']
        } else {
            Seq::<char>::empty()
        })
    }
}

/// The decomposition the rendering is built from loses nothing:
/// summing the unit values scaled back to seconds returns the input.
pub proof fn lemma_dhms_reconstruct(n: int)
    requires
        n >= 0,
    ensures
        86400 * days_of(n) + 3600 * hours_of(n) + 60 * minutes_of(n) + seconds_of(n) == n,
{
    lemma_fundamental_div_mod(n, 86400);
    lemma_fundamental_div_mod(n % 86400, 3600);
    lemma_fundamental_div_mod((n % 86400) % 3600, 60);
}

proof fn lemma_unit_piece_esc_free(v: int, c: char)
    requires
        c != '\u{1b}',
    ensures
        esc_free(dec_str(v) + seq![c, ' ']),
{
    lemma_dec_str_digits(v);
    assert(esc_free(dec_str(v))) by {
        assert forall|i: int| 0 <= i < dec_str(v).len() implies dec_str(v)[i] != '\u{1b}' by {
            assert(is_digit_char(dec_str(v)[i]));
        }
    }
    assert(esc_free(seq![c, ' ']));
    lemma_esc_free_concat(dec_str(v), seq![c, ' ']);
}

/// A rendered duration never holds the terminal escape character.
pub proof fn lemma_dhms_esc_free(n: int)
    requires
        n >= 0,
    ensures
        esc_free(dhms_spec(n)),
{
    if n == 0 {
        assert(esc_free(seq!['0', 's', ' ']));
    } else {
        let pd = if days_of(n) != 0 {
            dec_str(days_of(n)) + seq!['d', ' ']
        } else {
            Seq::<char>::empty()
        };
        let ph = if hours_of(n) != 0 {
            dec_str(hours_of(n)) + seq!['h', ' ']
        } else {
            Seq::<char>::empty()
        };
        let pm = if minutes_of(n) != 0 {
            dec_str(minutes_of(n)) + seq!['m', ' ']
        } else {
            Seq::<char>::empty()
        };
        let ps = if seconds_of(n) != 0 {
            dec_str(seconds_of(n)) + seq!['s', ' ']
        } else {
            Seq::<char>::empty()
        };
        lemma_unit_piece_esc_free(days_of(n), 'd');
        lemma_unit_piece_esc_free(hours_of(n), 'h');
        lemma_unit_piece_esc_free(minutes_of(n), 'm');
        lemma_unit_piece_esc_free(seconds_of(n), 's');
        assert(esc_free(Seq::<char>::empty()));
        lemma_esc_free_concat(pd, ph);
        lemma_esc_free_concat(pd + ph, pm);
        lemma_esc_free_concat(pd + ph + pm, ps);
    }
}

/// Render an elapsed-seconds count as a compact duration string.
pub fn format_dhms(seconds: u64) -> (r: String)
    ensures
        r@ == dhms_spec(seconds as int),
{
    if seconds == 0 {
        let mut out = String::new();
        out.append("0s ");
        proof {
            reveal_strlit("0s ");
            assert(out@ =~= seq!['0', 's', ' ']);
        }
        return out;
    }
    let ds = seconds / 86400;
    let mut sec = seconds % 86400;
    let hs = sec / 3600;
    sec = sec % 3600;
    let ms = sec / 60;
    sec = sec % 60;
    let mut out = String::new();
    if ds != 0 {
        let d = u64_to_string(ds);
        out.append(d.as_str());
        out.append("d ");
    }
    if hs != 0 {
        let h = u64_to_string(hs);
        out.append(h.as_str());
        out.append("h ");
    }
    if ms != 0 {
        let m = u64_to_string(ms);
        out.append(m.as_str());
        out.append("m ");
    }
    if sec != 0 {
        let s = u64_to_string(sec);
        out.append(s.as_str());
        out.append("s ");
    }
    proof {
        reveal_strlit("d ");
        reveal_strlit("h ");
        reveal_strlit("m ");
        reveal_strlit("s ");
        assert("d "@ =~= seq!['d', ' ']);
        assert("h "@ =~= seq!['h', ' ']);
        assert("m "@ =~= seq!['m', ' ']);
        assert("s "@ =~= seq!['s', ' ']);
        assert(out@ =~= dhms_spec(seconds as int));
    }
    out
}

} // verus!
