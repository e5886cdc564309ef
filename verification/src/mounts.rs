//! Mounted-filesystem enumeration: selecting real devices from mount-table
//! content, deduplicating by filesystem identity, and formatting capacity.

use vstd::prelude::*;
use vstd::arithmetic::mul::lemma_mul_inequality;
use crate::bytesize::{iec, iec_spec};
use crate::kv::{lines_of, split_lines};
use crate::text::{find_char_at, find_char_from, has_two_tokens, first_two_tokens, token1, token2};

verus! {

/// Block statistics for one mount point, as plain counts.
#[derive(Debug, Clone, Copy, PartialEq, Eq, Structural)]
pub struct FsStats {
    pub blocks: u64,
    pub blocks_free: u64,
    pub block_size: u64,
    pub fsid: u64,
}

/// A mount point together with the statistics queried for it, or
/// `None` where the query failed and the entry is to be skipped.
#[derive(Debug, Clone)]
pub struct MountQuery {
    pub mount_point: String,
    pub stats: Option<FsStats>,
}

/// One row of the report's filesystem table.
#[derive(Debug, Clone)]
pub struct FsEntry {
    pub mount_point: String,
    pub size: String,
    pub used: String,
}

/// Sane statistics: no more free than present, and a total byte count
/// that fits the machine word.
pub open spec fn wf_stats(st: FsStats) -> bool {
    st.blocks_free <= st.blocks && st.blocks * st.block_size <= u64::MAX
}

/// A mount-table line names a real device: its first token (the device
/// spec) holds a path separator.
pub open spec fn device_is_real(l: Seq<char>) -> bool {
    has_two_tokens(l) && find_char_at(token1(l), 0, '/') < token1(l).len()
}

/// The mount points of mount-table lines naming real devices, in order.
pub open spec fn mount_scan(lines: Seq<Seq<char>>) -> Seq<Seq<char>>
    decreases lines.len(),
{
    if lines.len() == 0 {
        Seq::<Seq<char>>::empty()
    } else {
        let rest = mount_scan(lines.drop_first());
        if device_is_real(lines[0]) {
            seq![token2(lines[0])] + rest
        } else {
            rest
        }
    }
}

/// Select from mount-table content the mount points worth querying:
/// those of records whose device spec holds a `/`.
pub fn mount_candidates(content: &str) -> (r: Vec<String>)
    ensures
        r.deep_view() == mount_scan(lines_of(content@)),
{
    let lines = split_lines(content);
    let mut out: Vec<String> = Vec::new();
    let mut i: usize = 0;
    proof {
        assert(lines.deep_view().skip(0) =~= lines.deep_view());
        assert(out.deep_view() + mount_scan(lines.deep_view()) =~= mount_scan(lines.deep_view()));
    }
    while i < lines.len()
        invariant
            i <= lines.len(),
            lines.deep_view() == lines_of(content@),
            mount_scan(lines_of(content@)) == out.deep_view() + mount_scan(
                lines.deep_view().skip(i as int),
            ),
        decreases lines.len() - i,
    {
        proof {
            let rest = lines.deep_view().skip(i as int);
            assert(rest[0] == lines.deep_view()[i as int]);
            assert(rest.drop_first() =~= lines.deep_view().skip(i as int + 1));
            assert(lines.deep_view()[i as int] == lines[i as int]@);
        }
        let line = &lines[i];
        match first_two_tokens(line.as_str()) {
            None => {},
            Some(toks) => {
                let t1 = toks.0;
                let n1 = t1.as_str().unicode_len();
                let slash = find_char_from(t1.as_str(), 0, '/');
                if slash < n1 {
                    let ghost out0 = out.deep_view();
                    out.push(toks.1);
                    proof {
                        assert(out.deep_view() =~= out0.push(toks.1@));
                        assert(out0.push(toks.1@) + mount_scan(
                            lines.deep_view().skip(i as int + 1),
                        ) =~= out0 + mount_scan(lines.deep_view().skip(i as int)));
                    }
                }
            },
        }
        i += 1;
    }
    proof {
        assert(lines.deep_view().skip(lines.deep_view().len() as int) =~= Seq::<Seq<char>>::empty());
        assert(out.deep_view() + mount_scan(Seq::<Seq<char>>::empty()) =~= out.deep_view());
    }
    out
}

/// The rows produced by walking the queried mounts in order: failed
/// queries are dropped; the first mount of each filesystem identity
/// claims it; zero-size filesystems are dropped after claiming their
/// identity; survivors carry their formatted size and used figures.
pub open spec fn fs_scan(ms: Seq<MountQuery>, seen: Seq<u64>) -> Seq<(Seq<char>, Seq<char>, Seq<
    char,
>)>
    decreases ms.len(),
{
    if ms.len() == 0 {
        Seq::<(Seq<char>, Seq<char>, Seq<char>)>::empty()
    } else {
        match ms[0].stats {
            None => fs_scan(ms.drop_first(), seen),
            Some(st) => {
                if seen.contains(st.fsid) {
                    fs_scan(ms.drop_first(), seen)
                } else {
                    let seen2 = seen.push(st.fsid);
                    let size = st.blocks * st.block_size;
                    if size == 0 {
                        fs_scan(ms.drop_first(), seen2)
                    } else {
                        let avail = st.blocks_free * st.block_size;
                        seq![(ms[0].mount_point@, iec_spec(size), iec_spec(size - avail))]
                            + fs_scan(ms.drop_first(), seen2)
                    }
                }
            },
        }
    }
}

/// Two mount records backed by the same filesystem identity yield the
/// rows of the first alone: once an identity is claimed, a second mount
/// of it emits nothing, whatever its figures or mount point.
pub proof fn lemma_identical_identity_once(m1: MountQuery, m2: MountQuery)
    requires
        m1.stats matches Some(s1) && (m2.stats matches Some(s2) && s1.fsid == s2.fsid),
    ensures
        fs_scan(seq![m1, m2], Seq::<u64>::empty()) == fs_scan(seq![m1], Seq::<u64>::empty()),
{
    let both = seq![m1, m2];
    let one = seq![m1];
    let st = m1.stats->0;
    let seen2 = Seq::<u64>::empty().push(st.fsid);
    assert(both.drop_first() =~= seq![m2]);
    assert(one.drop_first() =~= Seq::<MountQuery>::empty());
    assert(!Seq::<u64>::empty().contains(st.fsid));
    assert(seen2[0] == st.fsid);
    assert(seen2.contains(st.fsid));
    assert(seq![m2].drop_first() =~= Seq::<MountQuery>::empty());
    assert(seq![m2][0] == m2);
    assert(seen2.contains(m2.stats->0.fsid));
    assert(fs_scan(seq![m2], seen2) == fs_scan(seq![m2].drop_first(), seen2));
    assert(fs_scan(Seq::<MountQuery>::empty(), seen2) =~= Seq::<(Seq<char>, Seq<char>, Seq<
        char,
    >)>::empty());
    assert(fs_scan(seq![m2], seen2) =~= Seq::<(Seq<char>, Seq<char>, Seq<char>)>::empty());
    assert(fs_scan(both, Seq::<u64>::empty()) =~= fs_scan(one, Seq::<u64>::empty()));
}

pub open spec fn entry_views(r: Seq<FsEntry>) -> Seq<(Seq<char>, Seq<char>, Seq<char>)> {
    r.map_values(|e: FsEntry| (e.mount_point@, e.size@, e.used@))
}

fn seen_contains(seen: &Vec<u64>, x: u64) -> (r: bool)
    ensures
        r == seen@.contains(x),
{
    let mut i: usize = 0;
    while i < seen.len()
        invariant
            i <= seen@.len(),
            forall|j: int| 0 <= j < i ==> seen@[j] != x,
        decreases seen@.len() - i,
    {
        if seen[i] == x {
            return true;
        }
        i += 1;
    }
    false
}

/// Build the report's filesystem rows from the queried mounts.
pub fn filesystem_entries(mounts: Vec<MountQuery>) -> (r: Vec<FsEntry>)
    requires
        forall|i: int|
            0 <= i < mounts@.len() ==> (#[trigger] mounts@[i].stats matches Some(st) ==> wf_stats(
                st,
            )),
    ensures
        entry_views(r@) == fs_scan(mounts@, Seq::<u64>::empty()),
{
    let mut out: Vec<FsEntry> = Vec::new();
    let mut seen: Vec<u64> = Vec::new();
    let mut i: usize = 0;
    proof {
        assert(mounts@.skip(0) =~= mounts@);
        assert(entry_views(out@) + fs_scan(mounts@, seen@) =~= fs_scan(mounts@, seen@));
    }
    while i < mounts.len()
        invariant
            i <= mounts@.len(),
            forall|k: int|
                0 <= k < mounts@.len() ==> (#[trigger] mounts@[k].stats matches Some(st)
                    ==> wf_stats(st)),
            fs_scan(mounts@, Seq::<u64>::empty()) == entry_views(out@) + fs_scan(
                mounts@.skip(i as int),
                seen@,
            ),
        decreases mounts@.len() - i,
    {
        proof {
            let rest = mounts@.skip(i as int);
            assert(rest[0] == mounts@[i as int]);
            assert(rest.drop_first() =~= mounts@.skip(i as int + 1));
        }
        let mq = &mounts[i];
        match &mq.stats {
            None => {},
            Some(st) => {
                proof {
                    assert(mounts@[i as int].stats matches Some(s) && wf_stats(s));
                }
                if seen_contains(&seen, st.fsid) {
                } else {
                    let ghost seen0 = seen@;
                    seen.push(st.fsid);
                    let size = st.blocks * st.block_size;
                    if size == 0 {
                    } else {
                        proof {
                            lemma_mul_inequality(
                                st.blocks_free as int,
                                st.blocks as int,
                                st.block_size as int,
                            );
                        }
                        let avail = st.blocks_free * st.block_size;
                        let entry = FsEntry {
                            mount_point: mq.mount_point.clone(),
                            size: iec(size),
                            used: iec(size - avail),
                        };
                        let ghost out0 = out@;
                        out.push(entry);
                        proof {
                            let v = (entry.mount_point@, entry.size@, entry.used@);
                            assert(entry_views(out@) =~= entry_views(out0).push(v));
                            assert(fs_scan(mounts@.skip(i as int), seen0) == seq![v] + fs_scan(
                                mounts@.skip(i as int + 1),
                                seen@,
                            ));
                            assert(entry_views(out0) + (seq![v] + fs_scan(
                                mounts@.skip(i as int + 1),
                                seen@,
                            )) =~= entry_views(out0).push(v) + fs_scan(
                                mounts@.skip(i as int + 1),
                                seen@,
                            ));
                        }
                    }
                }
            },
        }
        i += 1;
    }
    proof {
        assert(mounts@.skip(mounts@.len() as int) =~= Seq::<MountQuery>::empty());
        assert(entry_views(out@) + fs_scan(Seq::<MountQuery>::empty(), seen@) =~= entry_views(
            out@,
        ));
    }
    out
}

} // verus!
