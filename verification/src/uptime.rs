//! Elapsed-seconds extraction from uptime-file content.

use vstd::prelude::*;
use crate::num::{dec_value, parse_u64, parses_u64};
use crate::text::{find_char_at, find_char_from, lemma_find_char_at, lemma_find_char_skip};

verus! {

/// The first whitespace-delimited field of `s`, truncated at its first dot.
pub open spec fn uptime_field(s: Seq<char>) -> Seq<char> {
    let t = s.take(find_char_at(s, 0, ' '));
    t.take(find_char_at(t, 0, '.'))
}

/// The whole seconds encoded by uptime-file content, if the first
/// dot-truncated field is a decimal `u64`.
pub open spec fn uptime_spec(s: Seq<char>) -> Option<u64> {
    if parses_u64(uptime_field(s)) {
        Some(dec_value(uptime_field(s)) as u64)
    } else {
        None
    }
}

/// Read the whole-second uptime out of uptime-file content: the first
/// space-separated field, truncated at the dot, as a decimal integer.
pub fn get_uptime(content: &str) -> (r: Option<u64>)
    ensures
        r == uptime_spec(content@),
{
    let sp = find_char_from(content, 0, ' ');
    proof {
        lemma_find_char_at(content@, 0, ' ');
    }
    let first = content.substring_char(0, sp);
    proof {
        assert(first@ =~= content@.take(find_char_at(content@, 0, ' ')));
    }
    let dp = find_char_from(first, 0, '.');
    proof {
        lemma_find_char_at(first@, 0, '.');
    }
    let head = first.substring_char(0, dp);
    proof {
        assert(head@ =~= first@.take(find_char_at(first@, 0, '.')));
    }
    parse_u64(head)
}

} // verus!
