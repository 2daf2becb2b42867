use vstd::prelude::*;

use crate::structs::{files_of, HashFormat, Index, IndexFile};

verus! {

/// A parent entry as it enters the merge: where it names no format and the
/// two indexes' defaults differ, it is given the parent's default.
pub open spec fn stamped(entry: IndexFile, parent_default: HashFormat, child_default: HashFormat) -> IndexFile {
    if parent_default != child_default && entry.hash_format is None {
        IndexFile {
            file: entry.file,
            hash: entry.hash,
            hash_format: Some(parent_default),
            metafile: entry.metafile,
        }
    } else {
        entry
    }
}

/// Every entry of `s`, stamped.
pub open spec fn stamp_all(s: Seq<IndexFile>, parent_default: HashFormat, child_default: HashFormat) -> Seq<IndexFile> {
    s.map_values(|e: IndexFile| stamped(e, parent_default, child_default))
}

/// The entries of a list keyed by path; of two entries with one path the
/// later one stands.
pub open spec fn entry_map(s: Seq<IndexFile>) -> Map<Seq<char>, IndexFile>
    decreases s.len(),
{
    if s.len() == 0 {
        Map::empty()
    } else {
        entry_map(s.drop_last()).insert(s.last().file@, s.last())
    }
}

/// What the merge of `parent` and `child` holds, keyed by path: the parent's
/// entries, stamped, and over them the child's.
pub open spec fn merged_map(parent: Index, child: Index) -> Map<Seq<char>, IndexFile> {
    entry_map(stamp_all(files_of(parent), parent.hash_format, child.hash_format) + files_of(child))
}

/// No two entries of `s` share a path.
pub open spec fn paths_unique(s: Seq<IndexFile>) -> bool {
    forall|i: int, j: int| 0 <= i < j < s.len() ==> s[i].file@ != s[j].file@
}

/// `s` lists the entries of `m`, each once.
pub open spec fn lists(s: Seq<IndexFile>, m: Map<Seq<char>, IndexFile>) -> bool {
    &&& paths_unique(s)
    &&& forall|i: int| 0 <= i < s.len() ==> m.contains_key(#[trigger] s[i].file@) && m[s[i].file@] == s[i]
    &&& forall|k: Seq<char>| m.contains_key(k) ==> exists|i: int| 0 <= i < s.len() && #[trigger] s[i].file@ == k
}

/// In a list, the entry at `i` is what the list maps its path to, when no
/// later entry has that path.
pub proof fn lemma_entry_map_latest(s: Seq<IndexFile>, i: int)
    requires
        0 <= i < s.len(),
        forall|j: int| i < j < s.len() ==> s[j].file@ != s[i].file@,
    ensures
        entry_map(s).contains_key(s[i].file@),
        entry_map(s)[s[i].file@] == s[i],
    decreases s.len(),
{
    if i < s.len() - 1 {
        let t = s.drop_last();
        assert forall|j: int| i < j < t.len() implies t[j].file@ != t[i].file@ by {
            assert(t[j] == s[j]);
        }
        lemma_entry_map_latest(t, i);
        assert(t[i] == s[i]);
    }
}

/// Override precedence: every entry of a child index whose paths are unique
/// stands unchanged in the merge, whatever the parent lists at its path.
pub proof fn lemma_child_overrides(parent: Index, child: Index, i: int)
    requires
        paths_unique(files_of(child)),
        0 <= i < files_of(child).len(),
    ensures
        merged_map(parent, child).contains_key(files_of(child)[i].file@),
        merged_map(parent, child)[files_of(child)[i].file@] == files_of(child)[i],
{
    let ps = stamp_all(files_of(parent), parent.hash_format, child.hash_format);
    let cs = files_of(child);
    let all = ps + cs;
    let n = ps.len() as int;
    assert(all[n + i] == cs[i]);
    assert forall|j: int| n + i < j < all.len() implies #[trigger] all[j].file@ != all[n + i].file@ by {
        assert(all[j] == cs[j - n]);
    }
    lemma_entry_map_latest(all, n + i);
}

/// Format inheritance: an entry of a parent index whose paths are unique,
/// which names no format and whose path the child does not list, comes out of
/// the merge with the parent's default format when the two defaults differ,
/// and with no format when they agree; its path, digest and flag are kept.
pub proof fn lemma_parent_format_inherited(parent: Index, child: Index, i: int)
    requires
        paths_unique(files_of(parent)),
        0 <= i < files_of(parent).len(),
        files_of(parent)[i].hash_format is None,
        forall|j: int| 0 <= j < files_of(child).len() ==> files_of(child)[j].file@ != files_of(parent)[i].file@,
    ensures
        merged_map(parent, child).contains_key(files_of(parent)[i].file@),
        merged_map(parent, child)[files_of(parent)[i].file@].file == files_of(parent)[i].file,
        merged_map(parent, child)[files_of(parent)[i].file@].hash == files_of(parent)[i].hash,
        merged_map(parent, child)[files_of(parent)[i].file@].metafile == files_of(parent)[i].metafile,
        merged_map(parent, child)[files_of(parent)[i].file@].hash_format == if parent.hash_format != child.hash_format {
            Some(parent.hash_format)
        } else {
            None
        },
{
    let ps = stamp_all(files_of(parent), parent.hash_format, child.hash_format);
    let cs = files_of(child);
    let all = ps + cs;
    let n = ps.len() as int;
    assert(all[i] == ps[i]);
    assert forall|j: int| i < j < all.len() implies all[j].file@ != all[i].file@ by {
        if j < n {
            assert(all[j] == ps[j]);
        } else {
            assert(all[j] == cs[j - n]);
        }
    }
    lemma_entry_map_latest(all, i);
}

/// The paths of the entries of `s`, in order.
pub open spec fn paths_of(s: Seq<IndexFile>) -> Seq<Seq<char>> {
    s.map_values(|e: IndexFile| e.file@)
}

proof fn lemma_listed_paths(s: Seq<IndexFile>, m: Map<Seq<char>, IndexFile>)
    requires
        lists(s, m),
    ensures
        paths_of(s).to_set() == m.dom(),
        s.len() == m.dom().len(),
{
    let ks = paths_of(s);
    assert forall|k: Seq<char>| ks.to_set().contains(k) <==> m.dom().contains(k) by {
        if m.dom().contains(k) {
            let i = choose|i: int| 0 <= i < s.len() && #[trigger] s[i].file@ == k;
            assert(ks[i] == k);
        }
        if ks.to_set().contains(k) {
            let i = choose|i: int| 0 <= i < ks.len() && ks[i] == k;
            assert(s[i].file@ == k);
        }
    }
    assert(ks.to_set() =~= m.dom());
    assert(ks.no_duplicates()) by {
        assert forall|i: int, j: int| 0 <= i < ks.len() && 0 <= j < ks.len() && i != j implies ks[i] != ks[j] by {
            if i < j {
                assert(s[i].file@ != s[j].file@);
            } else {
                assert(s[j].file@ != s[i].file@);
            }
        }
    }
    ks.unique_seq_to_set();
}

/// Repeating a merge on the same indexes gives the same entries: two lists
/// that both list the merged map differ at most in their order.
pub proof fn lemma_merge_unique_up_to_order(parent: Index, child: Index, a: Seq<IndexFile>, b: Seq<IndexFile>)
    requires
        lists(a, merged_map(parent, child)),
        lists(b, merged_map(parent, child)),
    ensures
        a.len() == b.len(),
        forall|i: int| 0 <= i < a.len() ==> #[trigger] b.contains(a[i]),
{
    let m = merged_map(parent, child);
    lemma_listed_paths(a, m);
    lemma_listed_paths(b, m);
    assert forall|i: int| 0 <= i < a.len() implies #[trigger] b.contains(a[i]) by {
        let k = a[i].file@;
        assert(m.contains_key(k));
        let j = choose|j: int| 0 <= j < b.len() && #[trigger] b[j].file@ == k;
        assert(b[j] == m[k]);
    }
}

fn stamp(entry: &IndexFile, parent_default: HashFormat, child_default: HashFormat) -> (r: IndexFile)
    ensures
        r == stamped(*entry, parent_default, child_default),
{
    let mut e = entry.copied();
    if parent_default != child_default && e.hash_format.is_none() {
        e.hash_format = Some(parent_default);
    }
    e
}

/// Puts `entry` into `out` in place of the entry with its path, or at the end.
fn put(out: &mut Vec<IndexFile>, entry: IndexFile, Ghost(m): Ghost<Map<Seq<char>, IndexFile>>)
    requires
        lists(old(out)@, m),
    ensures
        lists(final(out)@, m.insert(entry.file@, entry)),
{
    let ghost key = entry.file@;
    let ghost m2 = m.insert(key, entry);
    let mut j: usize = 0;
    while j < out.len()
        invariant
            lists(out@, m),
            out@ == old(out)@,
            j <= out.len(),
            key == entry.file@,
            m2 == m.insert(key, entry),
            forall|i: int| 0 <= i < j ==> out@[i].file@ != key,
        decreases out.len() - j,
    {
        if out[j].file == entry.file {
            let ghost s = out@;
            out.set(j, entry);
            proof {
                let s2 = out@;
                assert(s2 == s.update(j as int, entry));
                assert forall|k: Seq<char>| m2.contains_key(k) implies exists|i: int|
                    0 <= i < s2.len() && #[trigger] s2[i].file@ == k by {
                    if k == key {
                        assert(s2[j as int].file@ == k);
                    } else {
                        assert(m.contains_key(k));
                        let i = choose|i: int| 0 <= i < s.len() && #[trigger] s[i].file@ == k;
                        assert(s2[i] == s[i]);
                    }
                }
            }
            return;
        }
        j = j + 1;
    }
    let ghost s = out@;
    out.push(entry);
    proof {
        let s2 = out@;
        assert forall|k: Seq<char>| m2.contains_key(k) implies exists|i: int|
            0 <= i < s2.len() && #[trigger] s2[i].file@ == k by {
            if k == key {
                assert(s2[s.len() as int].file@ == k);
            } else {
                let i = choose|i: int| 0 <= i < s.len() && #[trigger] s[i].file@ == k;
                assert(s2[i].file@ == k);
            }
        }
    }
}

/// Puts each of `files`, stamped, into `out` in turn.
fn put_all(
    out: &mut Vec<IndexFile>,
    files: &Option<Vec<IndexFile>>,
    parent_default: HashFormat,
    child_default: HashFormat,
    Ghost(before): Ghost<Seq<IndexFile>>,
)
    requires
        lists(old(out)@, entry_map(before)),
    ensures
        lists(
            final(out)@,
            entry_map(
                before + stamp_all(
                    match files {
                        Some(v) => v@,
                        None => Seq::empty(),
                    },
                    parent_default,
                    child_default,
                ),
            ),
        ),
{
    match files {
        None => {
            assert(before + stamp_all(Seq::empty(), parent_default, child_default) =~= before);
        },
        Some(v) => {
            let ghost all = stamp_all(v@, parent_default, child_default);
            let mut i: usize = 0;
            while i < v.len()
                invariant
                    i <= v.len(),
                    all == stamp_all(v@, parent_default, child_default),
                    lists(out@, entry_map(before + all.take(i as int))),
                decreases v.len() - i,
            {
                let e = stamp(&v[i], parent_default, child_default);
                proof {
                    let s1 = before + all.take(i as int);
                    let s2 = before + all.take(i + 1);
                    assert(s2.drop_last() =~= s1);
                    assert(s2.last() == e);
                }
                put(out, e, Ghost(entry_map(before + all.take(i as int))));
                i = i + 1;
            }
            assert(all.take(v.len() as int) =~= all);
        },
    }
}

/// Merges the parent's index with the child's. Every path of either appears
/// once; where both list a path, the child's entry stands. The result has the
/// child's default format.
pub fn merge_indexes(parent: &Index, child: &Index) -> (r: Index)
    ensures
        r.hash_format == child.hash_format,
        r.files is Some,
        lists(files_of(r), merged_map(*parent, *child)),
{
    let mut out: Vec<IndexFile> = Vec::new();
    assert(entry_map(Seq::<IndexFile>::empty()) == Map::<Seq<char>, IndexFile>::empty());
    put_all(&mut out, &parent.files, parent.hash_format, child.hash_format, Ghost(Seq::empty()));
    let ghost ps = stamp_all(files_of(*parent), parent.hash_format, child.hash_format);
    assert(Seq::<IndexFile>::empty() + ps =~= ps);
    put_all(&mut out, &child.files, child.hash_format, child.hash_format, Ghost(ps));
    assert(stamp_all(files_of(*child), child.hash_format, child.hash_format) =~= files_of(*child));
    Index { hash_format: child.hash_format, files: Some(out) }
}

} // verus!
