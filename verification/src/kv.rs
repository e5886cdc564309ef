//! `KEY=VALUE` line parsing and the scan that extracts a distribution's
//! display name from an identity file.

use vstd::prelude::*;
use crate::text::{
    find_char_at, find_char_from, lemma_find_char_at, lemma_find_char_at_is, lemma_find_char_skip,
    str_eq, trim, trimmed,
};

verus! {

/// A value with one leading and/or trailing double quote loses exactly
/// one quote character from each end, independently.
pub open spec fn strip_quotes(v: Seq<char>) -> Seq<char> {
    let v1 = if v.len() > 0 && v[0] == '"' {
        v.drop_first()
    } else {
        v
    };
    if v1.len() > 0 && v1.last() == '"' {
        v1.drop_last()
    } else {
        v1
    }
}

/// Split a line on its first `=`: the key is everything before it, the
/// value everything after with surrounding quotes stripped; no `=`, no result.
pub open spec fn parse_line_spec(l: Seq<char>) -> Option<(Seq<char>, Seq<char>)> {
    let e = find_char_at(l, 0, '=');
    if e < l.len() {
        Some((l.take(e), strip_quotes(l.subrange(e + 1, l.len() as int))))
    } else {
        None
    }
}

/// A line yields no key-value pair exactly when it has no `=` at all.
pub proof fn lemma_no_equals_no_result(l: Seq<char>)
    ensures
        parse_line_spec(l) is None <==> (forall|j: int| 0 <= j < l.len() ==> l[j] != '='),
{
    lemma_find_char_at(l, 0, '=');
    if forall|j: int| 0 <= j < l.len() ==> l[j] != '=' {
        lemma_find_char_at_is(l, 0, '=', l.len() as int);
    }
}

/// Split a line of `KEY=VALUE` shape into its key and unquoted value.
pub fn parse_lines(l: &str) -> (r: Option<(String, String)>)
    ensures
        r is Some <==> parse_line_spec(l@) is Some,
        r matches Some(kv) ==> parse_line_spec(l@) == Some((kv.0@, kv.1@)),
{
    let n = l.unicode_len();
    let e = find_char_from(l, 0, '=');
    proof {
        lemma_find_char_at(l@, 0, '=');
    }
    if e == n {
        return None;
    }
    let key = l.substring_char(0, e).to_owned();
    proof {
        assert(l@.subrange(0, e as int) =~= l@.take(e as int));
    }
    let mut a = e + 1;
    let mut b = n;
    if a < b && l.get_char(a) == '"' {
        a = a + 1;
    }
    if a < b && l.get_char(b - 1) == '"' {
        b = b - 1;
    }
    let value = l.substring_char(a, b).to_owned();
    proof {
        let v = l@.subrange(e + 1, l@.len() as int);
        let v1 = if v.len() > 0 && v[0] == '"' {
            v.drop_first()
        } else {
            v
        };
        assert(v1 =~= l@.subrange(if v.len() > 0 && v[0] == '"' {
            e + 2
        } else {
            e + 1
        }, l@.len() as int));
        assert(l@.subrange(a as int, b as int) =~= strip_quotes(v));
    }
    Some((key, value))
}

/// The pieces of `s` between newline characters, in order; a trailing
/// newline yields a final empty piece.
pub open spec fn lines_of(s: Seq<char>) -> Seq<Seq<char>>
    decreases s.len(),
{
    let f = find_char_at(s, 0, '\n');
    if 0 <= f < s.len() {
        seq![s.take(f)] + lines_of(s.skip(f + 1))
    } else {
        seq![s]
    }
}

/// Split `s` at newline characters.
pub fn split_lines(s: &str) -> (r: Vec<String>)
    ensures
        r.deep_view() == lines_of(s@),
{
    let n = s.unicode_len();
    let mut out: Vec<String> = Vec::new();
    let mut pos: usize = 0;
    let mut f = find_char_from(s, 0, '\n');
    proof {
        lemma_find_char_at(s@, 0, '\n');
        assert(s@.skip(0) =~= s@);
    }
    while f < n
        invariant
            pos <= n,
            n == s@.len(),
            f == find_char_at(s@, pos as int, '\n'),
            pos <= f <= n,
            lines_of(s@) == out.deep_view() + lines_of(s@.skip(pos as int)),
        decreases n - pos,
    {
        out.push(s.substring_char(pos, f).to_owned());
        proof {
            let rest = s@.skip(pos as int);
            lemma_find_char_skip(s@, pos as int, '\n');
            assert(rest.take(f - pos as int) =~= s@.subrange(pos as int, f as int));
            assert(rest.skip(f - pos as int + 1) =~= s@.skip(f as int + 1));
            assert(lines_of(rest) == seq![s@.subrange(pos as int, f as int)] + lines_of(
                s@.skip(f as int + 1),
            ));
            assert(lines_of(s@) == out.deep_view() + lines_of(s@.skip(f as int + 1)));
        }
        pos = f + 1;
        f = find_char_from(s, pos, '\n');
        proof {
            lemma_find_char_at(s@, pos as int, '\n');
        }
    }
    out.push(s.substring_char(pos, n).to_owned());
    proof {
        let rest = s@.skip(pos as int);
        lemma_find_char_skip(s@, pos as int, '\n');
        assert(!(find_char_at(rest, 0, '\n') < rest.len()));
        assert(rest =~= s@.subrange(pos as int, n as int));
        assert(lines_of(rest) == seq![rest]);
        assert(out.deep_view() =~= lines_of(s@));
    }
    out
}

/// One pass of the identity-file scan: a line whose trimmed form parses
/// to key `PRETTY_NAME` replaces the value kept so far; the last wins.
pub open spec fn pretty_scan(lines: Seq<Seq<char>>, acc: Seq<char>) -> Seq<char>
    decreases lines.len(),
{
    if lines.len() == 0 {
        acc
    } else {
        let acc2 = match parse_line_spec(trimmed(lines[0])) {
            Some(kv) => if kv.0 == "PRETTY_NAME"@ {
                kv.1
            } else {
                acc
            },
            None => acc,
        };
        pretty_scan(lines.drop_first(), acc2)
    }
}

/// Extract the distribution display name from identity-file content:
/// the value of the last `PRETTY_NAME` entry, or empty if there is none.
pub fn pretty_name(content: &str) -> (r: String)
    ensures
        r@ == pretty_scan(lines_of(content@), Seq::<char>::empty()),
{
    let lines = split_lines(content);
    let mut acc = String::new();
    let mut i: usize = 0;
    proof {
        assert(lines.deep_view().skip(0) =~= lines.deep_view());
    }
    while i < lines.len()
        invariant
            i <= lines.len(),
            lines.deep_view() == lines_of(content@),
            pretty_scan(lines_of(content@), Seq::<char>::empty()) == pretty_scan(
                lines.deep_view().skip(i as int),
                acc@,
            ),
        decreases lines.len() - i,
    {
        let t = trim(lines[i].as_str());
        proof {
            assert(lines.deep_view()[i as int] == lines[i as int]@);
        }
        match parse_lines(t.as_str()) {
            Some(kv) => {
                if str_eq(kv.0.as_str(), "PRETTY_NAME") {
                    acc = kv.1;
                } else {
                }
            },
            None => {},
        }
        proof {
            let rest = lines.deep_view().skip(i as int);
            assert(rest[0] == lines.deep_view()[i as int]);
            assert(rest.drop_first() =~= lines.deep_view().skip(i as int + 1));
        }
        i += 1;
    }
    proof {
        assert(lines.deep_view().skip(lines.deep_view().len() as int) =~= Seq::<Seq<char>>::empty());
    }
    acc
}

} // verus!
