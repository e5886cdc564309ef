//! Memory-statistics parsing: label/value lines, the five required
//! counters, and the derived "used" figure.

use vstd::prelude::*;
use vstd::arithmetic::div_mod::lemma_fundamental_div_mod;
use crate::error::Error;
use crate::kv::{lines_of, split_lines};
use crate::num::{dec_value, parse_u64, parses_u64};
use crate::text::{
    find_char_at, find_char_from, has_two_tokens, first_two_tokens, lemma_find_char_at, str_eq,
    token1, token2,
};

verus! {

/// Total and used memory, in bytes.
#[derive(Debug, Clone, Copy, PartialEq, Eq, Structural)]
pub struct MemInfo {
    pub total: u64,
    pub used: u64,
}

/// The five counters gathered while scanning, each holding the last
/// value seen for its label.
#[derive(Debug, Clone, Copy)]
pub struct MemTally {
    pub total: Option<u64>,
    pub free: Option<u64>,
    pub buffers: Option<u64>,
    pub cached: Option<u64>,
    pub slab: Option<u64>,
}

/// The label of a line: its first token, truncated at the first `:`.
pub open spec fn line_label(l: Seq<char>) -> Seq<char> {
    token1(l).take(find_char_at(token1(l), 0, ':'))
}

/// The value field of a line parses as a `u64`.
pub open spec fn line_value_ok(l: Seq<char>) -> bool {
    parses_u64(token2(l))
}

pub open spec fn line_value(l: Seq<char>) -> u64 {
    dec_value(token2(l)) as u64
}

/// Record `v` under the counter `label` names, if any.
pub open spec fn tally_update(t: MemTally, label: Seq<char>, v: u64) -> MemTally {
    if label == "MemTotal"@ {
        MemTally { total: Some(v), ..t }
    } else if label == "MemFree"@ {
        MemTally { free: Some(v), ..t }
    } else if label == "Buffers"@ {
        MemTally { buffers: Some(v), ..t }
    } else if label == "Cached"@ {
        MemTally { cached: Some(v), ..t }
    } else if label == "Slab"@ {
        MemTally { slab: Some(v), ..t }
    } else {
        t
    }
}

/// Scan the lines in order: lines with fewer than two tokens are
/// skipped, a two-token line whose value does not parse stops the scan,
/// and later occurrences of a label overwrite earlier ones.
pub open spec fn scan_lines(lines: Seq<Seq<char>>, t: MemTally) -> Option<MemTally>
    decreases lines.len(),
{
    if lines.len() == 0 {
        Some(t)
    } else {
        let l = lines[0];
        if !has_two_tokens(l) {
            scan_lines(lines.drop_first(), t)
        } else if !line_value_ok(l) {
            None
        } else {
            scan_lines(lines.drop_first(), tally_update(t, line_label(l), line_value(l)))
        }
    }
}

pub open spec fn empty_tally() -> MemTally {
    MemTally { total: None, free: None, buffers: None, cached: None, slab: None }
}

/// The tally that memory-statistics content scans to, if no present
/// value field fails to parse.
pub open spec fn mem_scan(s: Seq<char>) -> Option<MemTally> {
    scan_lines(lines_of(s), empty_tally())
}

/// All five required labels were seen.
pub open spec fn tally_complete(t: MemTally) -> bool {
    t.total is Some && t.free is Some && t.buffers is Some && t.cached is Some && t.slab is Some
}

pub open spec fn opt_val(o: Option<u64>) -> int {
    match o {
        Some(v) => v as int,
        None => 0,
    }
}

/// The sum of the four counters subtracted from the total.
pub open spec fn tally_sum(t: MemTally) -> int {
    opt_val(t.free) + opt_val(t.buffers) + opt_val(t.cached) + opt_val(t.slab)
}

/// The scan succeeded, found every label, and the derived figures are
/// consistent and in range once scaled to bytes.
pub open spec fn mem_ok(s: Seq<char>) -> bool {
    match mem_scan(s) {
        None => false,
        Some(t) => tally_complete(t) && tally_sum(t) <= opt_val(t.total) && opt_val(t.total) * 1000
            <= u64::MAX,
    }
}

/// The result on success: both figures scaled from kibibyte units to
/// bytes by the metric factor.
pub open spec fn mem_value(s: Seq<char>) -> MemInfo {
    let t = mem_scan(s)->0;
    MemInfo {
        total: (opt_val(t.total) * 1000) as u64,
        used: ((opt_val(t.total) - tally_sum(t)) * 1000) as u64,
    }
}

/// The content scanned, but its figures are inconsistent or out of
/// range: the four counters exceed the total, or the total overflows
/// when scaled to bytes.
pub open spec fn mem_inconsistent(s: Seq<char>) -> bool {
    match mem_scan(s) {
        None => false,
        Some(t) => tally_complete(t) && !(tally_sum(t) <= opt_val(t.total) && opt_val(t.total)
            * 1000 <= u64::MAX),
    }
}

/// Parse memory-statistics content into total and used bytes.
///
/// Each line's first two whitespace-separated tokens are a label (with
/// anything from the first `:` on removed) and an unsigned value; lines
/// with fewer than two tokens are skipped; a value that does not parse,
/// or a missing required label, is an error, as are figures whose
/// derived "used" value would underflow or overflow.
pub fn mem_info(content: &str) -> (r: Result<MemInfo, Error>)
    ensures
        r is Ok <==> mem_ok(content@),
        r matches Ok(m) ==> m == mem_value(content@),
        mem_scan(content@) is None ==> r == Err::<MemInfo, Error>(Error::Unknown),
        (mem_scan(content@) matches Some(t) && !tally_complete(t)) ==> r == Err::<
            MemInfo,
            Error,
        >(Error::Unknown),
        mem_inconsistent(content@) ==> (r matches Err(e) && e matches Error::General(msg)
            && msg@ == "inconsistent memory statistics"@),
{
    let lines = split_lines(content);
    let mut tally = MemTally { total: None, free: None, buffers: None, cached: None, slab: None };
    let mut i: usize = 0;
    proof {
        assert(lines.deep_view().skip(0) =~= lines.deep_view());
    }
    while i < lines.len()
        invariant
            i <= lines.len(),
            lines.deep_view() == lines_of(content@),
            mem_scan(content@) == scan_lines(lines.deep_view().skip(i as int), tally),
        decreases lines.len() - i,
    {
        proof {
            let rest = lines.deep_view().skip(i as int);
            assert(rest[0] == lines.deep_view()[i as int]);
            assert(rest.drop_first() =~= lines.deep_view().skip(i as int + 1));
            assert(lines.deep_view()[i as int] == lines[i as int]@);
        }
        let line = &lines[i];
        match first_two_tokens(line.as_str()) {
            None => {},
            Some(toks) => {
                match parse_u64(toks.1.as_str()) {
                    None => {
                        return Err(Error::Unknown);
                    },
                    Some(v) => {
                        let t1 = toks.0;
                        let cp = find_char_from(t1.as_str(), 0, ':');
                        proof {
                            lemma_find_char_at(t1@, 0, ':');
                        }
                        let label = t1.as_str().substring_char(0, cp);
                        proof {
                            assert(label@ =~= line_label(lines[i as int]@));
                        }
                        if str_eq(label, "MemTotal") {
                            tally.total = Some(v);
                        } else if str_eq(label, "MemFree") {
                            tally.free = Some(v);
                        } else if str_eq(label, "Buffers") {
                            tally.buffers = Some(v);
                        } else if str_eq(label, "Cached") {
                            tally.cached = Some(v);
                        } else if str_eq(label, "Slab") {
                            tally.slab = Some(v);
                        }
                    },
                }
            },
        }
        i += 1;
    }
    proof {
        assert(lines.deep_view().skip(lines.deep_view().len() as int) =~= Seq::<Seq<char>>::empty());
    }
    let total = match tally.total {
        Some(v) => v,
        None => {
            return Err(Error::Unknown);
        },
    };
    let free = match tally.free {
        Some(v) => v,
        None => {
            return Err(Error::Unknown);
        },
    };
    let buffers = match tally.buffers {
        Some(v) => v,
        None => {
            return Err(Error::Unknown);
        },
    };
    let cached = match tally.cached {
        Some(v) => v,
        None => {
            return Err(Error::Unknown);
        },
    };
    let slab = match tally.slab {
        Some(v) => v,
        None => {
            return Err(Error::Unknown);
        },
    };
    let sum = free as u128 + buffers as u128 + cached as u128 + slab as u128;
    if sum > total as u128 || total > u64::MAX / 1000 {
        proof {
            lemma_fundamental_div_mod(u64::MAX as int, 1000);
        }
        return Err(Error::General("inconsistent memory statistics".to_owned()));
    }
    proof {
        lemma_fundamental_div_mod(u64::MAX as int, 1000);
    }
    let used = total - (sum as u64);
    Ok(MemInfo { total: total * 1000, used: used * 1000 })
}

} // verus!
